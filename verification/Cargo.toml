[package]
name = "airmon"
version = "0.1.0"
edition = "2021"
publish = false

[dependencies]
anyhow = "*"
bluez-async = "*"
chrono = "*"
clap = { version = "*", features = ["derive"] }
hex = "*"
serde = { version = "*", features = ["derive"] }
serde_json = "*"
tokio = { version = "*", features = ["macros", "rt-multi-thread", "time"] }
tokio-stream = "*"
tracing = "*"
tracing-subscriber = "*"
