[package]
name = "pvault"
version = "1.0.0"
edition = "2021"
publish = false

[dependencies]
serde = { version = "1", features = ["derive"] }
serde_json = "1"
prost = "0.13"
tracing = "0.1"
pumpkin-plugin-api = "*"
