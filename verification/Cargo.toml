[package]
name = "signalrs"
version = "0.1.0"
edition = "2021"
publish = false

[dependencies]
serde = { version = "1", features = ["derive"] }
serde_json = "1"
uuid = { version = "1", features = ["v4"] }
futures = "0.3"
flume = "0.11"
tokio = { version = "1", features = ["rt", "rt-multi-thread", "macros", "sync", "time", "net"] }
tokio-util = "0.7"
tokio-tungstenite = "0.20"
thiserror = "1"
tracing = "0.1"
log = "0.4"
pin-project = "1"
async-trait = "0.1"
url = "2"
axum = { version = "0.6", features = ["ws"] }
