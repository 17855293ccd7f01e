[package]
name = "router"
version = "0.1.0"
edition = "2021"
publish = false

[dependencies]
anyhow = "=1.0.104"
bytes = "=1.12.1"
serde_json = "=1.0.151"
tokio = { version = "=1.53.2", features = ["macros", "rt-multi-thread", "sync", "io-util", "io-std", "time", "signal"] }
tokio-util = "=0.7.19"
tun-rs = { version = "=2.8.11", features = ["async_tokio"] }
webrtc = "=0.14.0"
