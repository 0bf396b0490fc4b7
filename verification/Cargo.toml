[package]
name = "pakv"
version = "0.1.0"
edition = "2021"
publish = false

[dependencies]
byteorder = "1"
serde = { version = "1", features = ["derive"] }
serde_json = "1"
tokio = { version = "1", features = ["full"] }
clap = { version = "3.2.15", features = ["derive"] }
log = "0.4"
env_logger = "0.9"
crossbeam-channel = "0.5"
parking_lot = "0.12"
lazy_static = "1"
