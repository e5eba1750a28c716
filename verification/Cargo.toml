[package]
name = "config_center"
version = "0.1.0"
edition = "2021"
publish = false

[dependencies]
serde_json = { version = "=1.0.154", features = ["preserve_order"] }
serde_yaml = "=0.9.34"
uuid = { version = "=1.29.0", features = ["v4"] }
serde = { version = "=1.0.229", features = ["derive"] }
thiserror = "=1.0.69"
tokio = { version = "=1.54.1", features = ["full"] }
axum = "=0.8.9"
notify = "=6.1.1"
tracing = "=0.1.44"
tracing-subscriber = "=0.3.23"
crossterm = "=0.28.1"
ratatui = "=0.29.0"
