//! Verified core of the HiveBear local inference runtime and mesh:
//! configuration and path resolution, model-file selection and download
//! rules, the local model index, disk-usage reports, offload planning, streaming-event parsing,
//! chat-message decoding, generation control, account sign-in rules, mesh
//! handshakes and certificate pinning, and the coordination server's state.
pub mod text;
pub mod huggingface;
pub mod registry;
pub mod index;
pub mod types;
pub mod offload;
pub mod keymap;
pub mod config;
pub mod paths;
pub mod secrets;
pub mod sse;
pub mod account;
pub mod storage;
pub mod download;
pub mod coordinator;
pub mod mesh;
pub mod inference;
pub mod discovery;
