[package]
name = "gpuix"
version = "0.1.0"
edition = "2021"
publish = false

[dependencies]
serde_json = "=1.0.154"
serde = { version = "=1.0.229", features = ["derive"] }
log = "=0.4.34"
env_logger = "=0.11.11"
parking_lot = "=0.12.5"
anyhow = "=1.0.104"
futures = "=0.3.34"
uuid = { version = "=1.29.0", features = ["v4"] }
raw-window-handle = "=0.6.2"
napi = "*"
napi-derive = "*"
winit = "*"
