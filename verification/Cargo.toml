[package]
name = "musidex_daemon"
version = "0.1.0"
edition = "2021"
publish = false

[dependencies]
anyhow = "1"
deadpool-postgres = "0.10"
env_logger = "0.10"
futures = "0.3"
hyper = { version = "0.14", features = ["full"] }
hyper-tungstenite = "0.11"
log = "0.4"
rusqlite = "0.29"
serde = { version = "1", features = ["derive"] }
serde_json = "1"
tokio = { version = "1", features = ["full"] }
