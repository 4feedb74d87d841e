[package]
name = "indy_ledger"
version = "0.1.0"
edition = "2021"
publish = false

[dependencies]
serde_json = { version = "=1.0.154", features = ["preserve_order"] }
time = "=0.1.45"
rust-base58 = "=0.0.4"
