# hivebear

The verified core of HiveBear, a local LLM runtime whose devices pool
their hardware over a peer-to-peer mesh. The functions in `src/` carry
contracts checked by Verus; calls into outside crates (SHA-256, hex,
Ed25519, HTTP status names, URL encoding, RFC 3339 parsing, the concurrent
maps of the coordination server) go through small adapter functions whose
contracts are assumed, and stated next to them.

Layout:

- `src/` — the library: text helpers and `KeyMap` (`text`, `keymap`),
  configuration, paths and key storage rules (`config`, `paths`,
  `secrets`), model registry and HuggingFace rules (`registry`,
  `huggingface`, `download`, `storage`), inference types, offload
  planning, SSE decoding and generation control (`types`, `offload`,
  `sse`, `inference`), accounts (`account`), and the mesh: handshake and
  pinning (`mesh`), the client's reply policy (`discovery`) and the
  coordination server's state (`coordinator`).
- `tests/` — tests run against the compiled library.
- `app/` — the coordination server binary and the I/O around the
  library: HTTP downloads, keychain access, directory scans, SSE streams.
