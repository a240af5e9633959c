[package]
name = "httpframe"
version = "0.1.0"
edition = "2021"
publish = false

[dependencies]
anyhow = "*"
tokio = { version = "*", features = ["rt-multi-thread", "net", "time", "io-util", "macros"] }
tracing = "*"
tracing-subscriber = "*"
