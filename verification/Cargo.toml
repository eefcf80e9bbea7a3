[package]
name = "snip1155"
version = "0.1.0"
edition = "2021"
publish = false

[dependencies]
cosmwasm-std = "*"
serde = { version = "*", features = ["derive"] }
serde_json = "*"
