[package]
name = "plogtion"
version = "0.1.0"
edition = "2021"
publish = false

[dependencies]
axum = { version = "0.8", features = ["multipart"] }
chrono = "0.4"
env_logger = "0.11"
git2 = "0.20"
log = "0.4"
reqwest = { version = "0.12", features = ["json"] }
rust-s3 = "0.35"
serde = { version = "1", features = ["derive"] }
serde_json = "1"
structured-logger = "*"
tokio = { version = "1", features = ["full"] }
