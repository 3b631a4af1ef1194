[package]
name = "ws_load_tester"
version = "0.1.0"
edition = "2021"
publish = false

[dependencies]
url = "2"
clap = "4"
tokio = { version = "1", features = ["full"] }
tokio-tungstenite = "0.21"
futures-util = { version = "0.3", features = ["sink"] }
serde = { version = "1", features = ["derive"] }
serde_json = "1"
tracing = "0.1"
tracing-subscriber = "0.3"
