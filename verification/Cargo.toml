[package]
name = "janus"
version = "0.1.0"
edition = "2021"
publish = false

[dependencies]
tiktoken-rs = "*"
regex = "1"
serde = { version = "1", features = ["derive"] }
serde_json = "1"
thiserror = "*"
chrono = "0.4"
uuid = { version = "1", features = ["v4"] }
