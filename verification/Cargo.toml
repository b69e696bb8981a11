[package]
name = "rollup_operator"
version = "0.1.0"
edition = "2021"
publish = false

[dependencies]
hex = "0.4"
parity-crypto = { version = "0.9", features = ["publickey"] }
chrono = "0.4"
