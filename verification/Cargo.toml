[package]
name = "droplinked_near"
version = "0.1.0"
edition = "2021"
publish = false

[dependencies]
sha2 = "=0.11.0"
base16 = "=0.2.1"
ed25519-dalek = "=3.0.0"
near-sdk = { version = "=5.29.1", features = ["unit-testing"] }
