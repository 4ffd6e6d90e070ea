[package]
name = "logline"
version = "1.0.0"
edition = "2021"
publish = false

[dependencies]
chrono = "=0.4.45"
uuid = { version = "=1.29.0", features = ["v4"] }
rand = "=0.8.8"
serde_json = "=1.0.154"
serde = { version = "=1.0.229", features = ["derive"] }
dashmap = "=5.5.3"
wasmer = "=7.0.1"
notify = "=6.1.1"
once_cell = "=1.21.4"
tokio = { version = "=1.54.1", features = ["full"] }
warp = "=0.3.7"
futures = "=0.3.34"
thiserror = "=1.0.69"
anyhow = "=1.0.104"
log = "=0.4.34"
env_logger = "=0.10.2"
tracing = "=0.1.44"
