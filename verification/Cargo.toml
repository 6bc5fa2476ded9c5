[package]
name = "hivebear"
version = "0.1.0"
edition = "2021"
publish = false

[dependencies]
serde = { version = "=1.0.229", features = ["derive"] }
serde_json = "=1.0.154"
sha2 = "=0.10.9"
hex = "=0.4.3"
urlencoding = "=2.1.3"
toml = "=0.8.23"
directories = "=5.0.1"
chrono = { version = "=0.4.45", features = ["serde"] }
base64 = "=0.22.1"
thiserror = "=1.0.69"
tracing = "=0.1.44"
tracing-subscriber = { version = "=0.3.23", features = ["env-filter"] }
tokio = { version = "=1.54.1", features = ["full"] }
futures = "=0.3.34"
reqwest = { version = "=0.12.28", default-features = false, features = ["json", "stream", "rustls-tls"] }
async-stream = "=0.3.6"
keyring = "=3.6.3"
dashmap = "=6.2.1"
axum = "=0.7.9"
tower-http = { version = "=0.6.11", features = ["cors"] }
clap = { version = "=4.6.7", features = ["derive"] }
ed25519-dalek = "2"
