[package]
name = "pappap_core"
version = "0.1.0"
edition = "2021"
publish = false

[dependencies]
sha2 = "0.10"
hex = "0.4"
ed25519-dalek = "2"
sled = "0.34"
serde = { version = "1", features = ["derive"] }
serde_json = "1"
rand = "0.8"
bip39 = "2"
tokio = { version = "1", features = ["rt-multi-thread", "macros", "time", "sync"] }
