[package]
name = "kansas"
version = "1.0.0"
edition = "2021"
publish = false

[dependencies]
arc-swap = "=1.9.2"
clap = "=3.2.25"
dashmap = "=5.5.3"
env_logger = "=0.10.2"
futures = "=0.3.34"
humantime-serde = "=1.1.1"
http = "=0.2.12"
hyper = { version = "=0.14.32", features = ["full"] }
hyper-timeout = "=0.4.1"
lazy_static = "=1.5.1"
log = "=0.4.34"
prometheus = "=0.13.4"
serde = { version = "=1.0.229", features = ["derive"] }
tokio = { version = "=1.53.2", features = ["full"] }
toml = "=0.7.8"

[dev-dependencies]
url = "=2.5.8"
