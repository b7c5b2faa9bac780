[package]
name = "world_hello"
version = "0.1.0"
edition = "2021"
publish = false

[dependencies]
futures = "=0.3.34"
tokio = { version = "=1.54.1", features = ["full"] }
mini-redis = "=0.4.1"
bytes = "=1.12.1"
tokio-stream = "=0.1.19"
async-std = "=1.13.2"
reqwest = { version = "0.12", default-features = false, features = ["stream"] }
