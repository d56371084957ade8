[package]
name = "aml_transfer"
version = "0.1.0"
edition = "2021"
publish = false

[dependencies]
cosmwasm-crypto = "1"
cosmwasm-schema = "1"
cosmwasm-std = "1"
cw-storage-plus = "1"
cw2 = "1"
serde = { version = "1", default-features = false, features = ["derive"] }
sha2 = "0.10"
