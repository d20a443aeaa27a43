[package]
name = "forge-talos"
version = "0.1.0"
edition = "2021"
publish = false

[dependencies]
dirs = "6"
serde = { version = "1", features = ["derive"] }
serde_json = "1"
thiserror = "2"
tokio = { version = "1", features = ["fs", "io-util", "process", "rt", "sync", "time"] }
tokio-stream = "0.1"
toml = "0.8"
tracing = "0.1"
