[package]
name = "logcfg"
version = "0.1.0"
edition = "2021"
publish = false

[dependencies]
tracing-core = "*"
tracing-subscriber = { version = "*", features = ["env-filter", "json", "chrono"] }
tracing-appender = "*"
serde = { version = "*", features = ["derive"] }
serde_json = "*"
