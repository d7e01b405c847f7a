[package]
name = "spotidown"
version = "0.1.0"
edition = "2021"
publish = false

[dependencies]
sanitize-filename = "*"
url = "2"
mp4ameta = "*"
dirs = "*"
serde = { version = "1", features = ["derive"] }
serde_json = "1"
tokio = { version = "1", features = ["full"] }
