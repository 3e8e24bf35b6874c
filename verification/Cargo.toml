[package]
name = "soroban-budget-assert"
version = "0.1.0"
edition = "2021"
publish = false

[dependencies]
serde_json = "=1.0.154"
serde = { version = "=1.0.229", features = ["derive"] }
toml = "=0.8.23"
anyhow = "=1.0.104"
syn = { version = "=2.0.119", features = ["full", "visit-mut"] }
quote = "=1.0.47"
proc-macro2 = "=1.0.107"
soroban-sdk = "=22.0.11"
csv = "1"
