[package]
name = "worker_route"
version = "0.1.0"
edition = "2021"
publish = false

[dependencies]
url = "2"
cookie = "0.18"
serde = { version = "1", features = ["derive"] }
serde_json = "1"
serde_qs = "*"
