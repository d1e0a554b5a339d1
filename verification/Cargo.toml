[package]
name = "worldsync"
version = "0.1.0"
edition = "2021"
publish = false

[dependencies]
sha2 = "*"
anyhow = "*"
log = "*"
env_logger = "*"
serde = { version = "*", features = ["derive"] }
serde_json = "*"
tokio = { version = "*", features = ["rt-multi-thread", "macros", "net", "sync", "io-util", "time"] }
tokio-util = { version = "*", features = ["codec"] }
futures = "*"
notify = "*"
