[package]
name = "wallet_keys"
version = "0.1.0"
edition = "2021"
publish = false

[dependencies]
bdk_wallet = { version = "*", features = ["keys-bip39"] }
