[package]
name = "bridge_app"
version = "0.1.0"
edition = "2021"
publish = false

[dependencies]
tokio = { version = "1", features = ["rt", "rt-multi-thread", "macros", "sync", "time"] }
tokio-util = "0.7"
thiserror = "2"
tempfile = "3"
