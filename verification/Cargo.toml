[package]
name = "terra_zil"
version = "0.1.0"
edition = "2021"
publish = false

[dependencies]
cosmwasm-std = "*"
schemars = "*"
serde = { version = "*", features = ["derive"] }
