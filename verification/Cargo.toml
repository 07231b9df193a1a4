[package]
name = "tally"
version = "0.1.0"
edition = "2021"
publish = false

[dependencies]
askama = "*"
axum = "*"
axum-extra = { version = "*", features = ["typed-header"] }
futures-util = "*"
headers = "*"
serde = { version = "*", features = ["derive"] }
serde_json = "*"
tokio = { version = "*", features = ["full"] }
tokio-stream = { version = "*", features = ["time"] }
