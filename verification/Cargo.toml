[package]
name = "pumpkin"
version = "0.1.0"
edition = "2021"
publish = false

[dependencies]
dashmap = "6"
libloading = "0.8"
tokio = { version = "1", features = ["rt", "time", "sync", "macros"] }
tokio-util = "0.7"
tracing = "0.1"
