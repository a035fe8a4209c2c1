[package]
name = "onchainid"
version = "0.1.0"
edition = "2021"
publish = false

[dependencies]
cosmwasm-crypto = "2"
cosmwasm-schema = "2"
cosmwasm-std = "2"
cw-storage-plus = "2"
cw2 = "2"
hex = "0.4"
schemars = "0.8"
semver = "1"
serde = { version = "1", features = ["derive"] }
serde_json = "1"
sha2 = "0.10"

[dev-dependencies]
k256 = { version = "0.13", features = ["ecdsa"] }
