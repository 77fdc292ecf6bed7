[package]
name = "wsh"
version = "0.1.0"
edition = "2021"
publish = false

[dependencies]
serde = { version = "=1.0.229", features = ["derive"] }
serde_json = "=1.0.154"
toml = "=0.8.23"
tokio = { version = "=1.54.1", features = ["sync", "time", "rt", "rt-multi-thread", "macros", "net", "signal"] }
parking_lot = "=0.12.5"
axum = "=0.8.9"
hostname = "=0.4.2"
rand = "=0.8.8"
ipnet = "=2.12.2"
subtle = "=2.6.1"
tokio-tungstenite = "=0.26.2"
futures = "=0.3.34"
reqwest = { version = "=0.12.28", default-features = false, features = ["json"] }
tracing = "=0.1.44"
tracing-subscriber = "=0.3.23"
clap = { version = "=4.6.7", features = ["derive"] }
bytes = "=1.12.1"
base64 = "=0.22.1"
