[package]
name = "up_streamer"
version = "0.1.0"
edition = "2021"
publish = false

[dependencies]
tokio = { version = "*", default-features = false, features = ["sync"] }
regex = "*"
serde_json = "*"
up-rust = "*"
