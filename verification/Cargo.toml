[package]
name = "vertex_cpty"
version = "0.1.0"
edition = "2021"
publish = false

[dependencies]
hex = "=0.4.3"
chrono = "=0.4.45"
anyhow = "=1.0.104"
log = "=0.4.34"
env_logger = "=0.11.11"
serde = { version = "=1.0.229", features = ["derive"] }
serde_json = "=1.0.151"
clap = { version = "=4.6.7", features = ["derive"] }
tokio = { version = "=1.53.2", features = ["rt-multi-thread", "macros", "sync", "time", "io-std", "io-util"] }
tokio-stream = { version = "=0.1.19", features = ["sync"] }
futures = "=0.3.34"
rust_decimal = "=1.43.0"
