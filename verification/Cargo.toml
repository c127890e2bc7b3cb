[package]
name = "subwoofer"
version = "0.1.0"
edition = "2021"
publish = false

[dependencies]
anyhow = "=1.0.104"
buttplug = { version = "=9.0.9", default-features = false, features = ["tokio-runtime", "client", "serialize-json", "websockets"] }
cpal = "0.13.5"
lowpass-filter = "=0.3.2"
tokio = { version = "=1.54.1", features = ["rt-multi-thread", "sync", "time"] }
