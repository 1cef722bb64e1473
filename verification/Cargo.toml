[package]
name = "rachel"
version = "0.1.0"
edition = "2021"
publish = false

[dependencies]
httparse = "1"
hyper = { version = "0.14", features = ["full"] }
log = "0.4"
pretty_env_logger = "0.4"
rand = "0.8"
reqwest = { version = "0.11", default-features = false }
tokio = { version = "1", features = ["full"] }
