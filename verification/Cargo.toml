[package]
name = "io_mock"
version = "0.1.0"
edition = "2021"
publish = false

[dependencies]
futures-core = "0.3"
hex = "0.4"
tokio = { version = "1", features = ["sync", "time"] }
tokio-stream = "0.1"
