[package]
name = "rustdbms"
version = "0.1.0"
edition = "2021"
publish = false

[dependencies]
chrono = { version = "0.4", features = ["serde"] }
env_logger = "0.11"
fs2 = "0.4"
log = "0.4"
serde = { version = "1", features = ["derive"] }
serde_json = "1"
