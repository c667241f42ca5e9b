[package]
name = "dao_core"
version = "0.1.0"
edition = "2021"
publish = false

[dependencies]
near-sdk = { version = "=5.24.1", features = ["non-contract-usage"] }
near-token = { version = "=0.3.6", features = ["serde"] }
serde = "=1.0.229"
serde_json = "=1.0.151"
schemars = "=0.8.22"
