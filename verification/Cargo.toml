[package]
name = "metrics_engine"
version = "0.1.0"
edition = "2021"
publish = false

[dependencies]
env_logger = "=0.11.11"
futures = "=0.3.34"
log = "=0.4.34"
prometheus = "=0.14.0"
rand = "=0.10.3"
tokio = { version = "=1.53.2", features = ["full"] }
warp = { version = "=0.4.3", features = ["server", "websocket"] }
