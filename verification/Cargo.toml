[package]
name = "commentor"
version = "0.1.0"
edition = "2021"
publish = false

[dependencies]
serde_json = "1"
rand = "0.8"
serde = { version = "1", features = ["derive"] }
serde_yaml = "*"
anyhow = "1"
log = "0.4"
env_logger = "*"
hyper = { version = "0.14", features = ["full"] }
http-body = "0.4"
tokio = { version = "1", features = ["full"] }
tower = { version = "0.4", features = ["limit", "util"] }
octocrab = "0.18"
