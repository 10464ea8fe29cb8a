[package]
name = "escrow"
version = "0.1.0"
edition = "2021"
publish = false

[dependencies]
solana-pubkey = { version = "*", features = ["sha2", "curve25519"] }
