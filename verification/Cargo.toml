[package]
name = "hyperx-mic-lite"
version = "0.1.0"
edition = "2021"
publish = false

[dependencies]
serde = { version = "1", features = ["derive"] }
serde_json = "1"
hidapi = "2"
rumqttc = "0.24"
