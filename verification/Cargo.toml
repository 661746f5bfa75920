[package]
name = "mock_ota"
version = "0.1.0"
edition = "2021"
publish = false

[dependencies]
anyhow = "=1.0.104"
axum = "=0.8.9"
chrono = "=0.4.45"
reqwest = { version = "=0.13.5", default-features = false, features = ["json"] }
rumqttc = { version = "=0.25.1", default-features = false }
serde = { version = "=1.0.229", features = ["derive"] }
serde_json = "=1.0.151"
tokio = { version = "=1.53.2", features = ["full"] }
tokio-util = { version = "=0.7.19", features = ["io"] }
uuid = { version = "=1.27.0", features = ["v4"] }
