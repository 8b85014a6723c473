[package]
name = "fedimint_client"
version = "0.1.0"
edition = "2021"
publish = false

[dependencies]
rand = "0.8"
secp256k1-zkp = "*"
bitcoin_hashes = "*"
serde = { version = "1", features = ["derive"] }
