[package]
name = "saito"
version = "0.1.0"
edition = "2021"
publish = false

[dependencies]
futures = "0.3"
serde = { version = "1", features = ["derive"] }
serde_with = "3"
tokio = { version = "1", features = ["sync", "rt"] }
tokio-stream = "0.1"
warp = "0.3"
