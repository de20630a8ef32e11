[package]
name = "triggerpay"
version = "0.1.0"
edition = "2021"
publish = false

[dependencies]
near-sdk = { version = "=5.29.1", features = ["legacy", "non-contract-usage"] }
schemars = "=0.8.22"
serde_json = "=1.0.154"
sha2 = "=0.10.9"
