[package]
name = "positron_edr"
version = "0.1.0"
edition = "2021"
publish = false

[dependencies]
chrono = "*"
notify = "*"
serde_json = "*"
tokio = { version = "1", features = ["sync"] }
tracing = "*"
tracing-subscriber = "*"
