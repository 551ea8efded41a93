[package]
name = "gb10_inference"
version = "0.1.0"
edition = "2021"
publish = false

[dependencies]
anyhow = "=1.0.104"
bytemuck = "1"
cudarc = { version = "=0.9.15", default-features = false, features = ["std", "driver", "cublas", "nvrtc", "f16", "ci-check"] }
half = "=2.7.1"
parking_lot = "=0.12.5"
rand = "=0.8.8"
safetensors = "=0.8.0"
serde = { version = "1", features = ["derive"] }
serde_json = "=1.0.154"
tokio = { version = "=1.54.1", features = ["sync", "rt", "net", "io-util", "time"] }
uuid = { version = "=1.29.0", features = ["v4"] }
