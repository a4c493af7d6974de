[package]
name = "ledger_core"
version = "0.1.0"
edition = "2021"
publish = false

[dependencies]
ed25519-dalek = "2"
serde = { version = "1", features = ["derive"] }
bincode = "1"
