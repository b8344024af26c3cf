[package]
name = "fipa-wasm-agents"
version = "0.1.0"
edition = "2021"
publish = false

[dependencies]
chrono = "=0.4.45"
rand = "=0.9.5"
uuid = { version = "=1.29.0", features = ["v4", "serde"] }
ed25519-dalek = "=2.2.0"
sha2 = "=0.10.9"
hex = "=0.4.3"
serde = { version = "=1.0.229", features = ["derive"] }
serde_json = "=1.0.154"
metrics = "=0.24.6"
libc = "=0.2.191"
