[package]
name = "vkbot"
version = "0.1.0"
edition = "2021"
publish = false

[dependencies]
serde_json = "=1.0.151"
reqwest = { version = "=0.13.5", default-features = false, features = ["form", "query"] }
tokio = { version = "=1.53.2", features = ["macros", "rt", "time", "sync", "signal", "fs", "io-util"] }
tokio-util = "=0.7.19"
rand = "=0.10.3"
log = "=0.4.34"
env_logger = "=0.11.11"
