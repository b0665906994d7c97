[package]
name = "phoenix_channels_client"
version = "0.1.0"
edition = "2021"
publish = false

[dependencies]
uuid = { version = "=1.29.0", features = ["v4"] }
serde = { version = "=1.0.229", features = ["derive"] }
serde_json = "=1.0.154"
tokio = { version = "=1.54.1", features = ["full"] }
tokio-tungstenite = "=0.21.0"
url = "=2.5.8"
futures = "=0.3.34"
log = "=0.4.35"
atomic-take = "=1.1.0"
arc-swap = "=1.9.3"
httparse = "=1.10.1"

[dev-dependencies]
