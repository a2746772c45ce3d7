[package]
name = "vector"
version = "0.1.0"
edition = "2021"
publish = false

[dependencies]
argon2 = "0.5"
chacha20 = "0.9"
lazy_static = "1"
nostr-sdk = { version = "0.42", features = ["nip06", "nip44", "nip59"] }
once_cell = "1"
rand = "0.8"
serde = { version = "1", features = ["derive"] }
tokio = { version = "1", features = ["sync"] }
