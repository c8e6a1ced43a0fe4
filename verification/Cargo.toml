[package]
name = "green_vita"
version = "0.1.0"
edition = "2021"
publish = false

[dependencies]
serde = { version = "=1.0.229", features = ["derive"] }
serde_json = "=1.0.154"
anyhow = "=1.0.104"
h264-reader = "=0.9.0"
bytes = "1"
rtc = "*"
