[package]
name = "ttvy_core"
version = "0.1.0"
edition = "2021"
publish = false

[dependencies]
axum = "0.7"
fast_websocket_client = "*"
serde = { version = "1", features = ["derive"] }
serde_json = "1"
tokio = { version = "1", features = ["full"] }
