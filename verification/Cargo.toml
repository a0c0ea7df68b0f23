[package]
name = "pointzerver"
version = "0.1.0"
edition = "2021"
publish = false

[dependencies]
anyhow = "1"
chrono = "0.4"
env_logger = "0.11"
log = "0.4"
serde_json = "1"
tokio = { version = "1", features = ["macros", "net", "rt-multi-thread", "time", "io-util"] }
