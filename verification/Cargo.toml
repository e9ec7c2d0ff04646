[package]
name = "appmeta"
version = "0.1.0"
edition = "2021"
publish = false

[dependencies]
regex = "1"
serde = { version = "1", features = ["derive"] }
serde_json = "1"
serde_yaml = "0.9"
tokio = { version = "1", features = ["sync", "rt"] }
parking_lot = "0.12"
async-trait = "0.1"
tracing = "0.1"
