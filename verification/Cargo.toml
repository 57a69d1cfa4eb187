[package]
name = "limit_orders"
version = "0.1.0"
edition = "2021"
publish = false

[dependencies]
primitive-types = "*"
cosmwasm-std = "0.10"
cosmwasm-storage = "0.10"
secret-toolkit = "*"
schemars = "*"
serde = { version = "*", features = ["derive"] }
