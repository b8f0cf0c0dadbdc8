[package]
name = "chat"
version = "0.1.0"
edition = "2021"
publish = false

[dependencies]
async-channel = "2"
dashmap = "6"
serde = { version = "1", features = ["derive"] }
serde_json = "1"
tokio = { version = "1", features = ["full"] }
