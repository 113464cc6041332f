[package]
name = "api2cli"
version = "0.1.0"
edition = "2021"
publish = false

[dependencies]
axum = { version = "=0.7.9", default-features = false, features = ["http1", "tokio"] }
clap = { version = "=4.6.7", features = ["derive"] }
dirs-next = "=2.0.0"
serde_json = "=1.0.154"
tokio = { version = "=1.54.1", features = ["full"] }
toml = "=0.8.23"
tracing = "=0.1.44"
tracing-appender = "=0.2.5"
tracing-subscriber = { version = "=0.3.23", features = ["env-filter"] }
