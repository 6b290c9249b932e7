[package]
name = "dkls23_lockness"
version = "0.1.0"
edition = "2021"
publish = false

[dependencies]
generic-ec = { version = "0.4", features = ["curve-secp256k1", "serde"] }
rand = "0.8"
round-based = { version = "0.4", features = ["derive"] }
serde = { version = "1", features = ["derive"] }
serde_json = "1"
sha2 = "0.10"
thiserror = "1"
