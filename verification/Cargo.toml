[package]
name = "empire"
version = "0.1.0"
edition = "2021"
publish = false

[dependencies]
bigdecimal = "=0.4.11"
chrono = "=0.4.45"
uuid = { version = "=1.29.1", features = ["v4", "v7", "serde"] }
serde = { version = "=1.0.229", features = ["derive"] }
serde_json = "=1.0.154"
tokio = { version = "=1.54.1", features = ["macros", "rt-multi-thread", "sync", "time", "net", "signal"] }
tokio-util = "=0.7.20"
tracing = "=0.1.44"
tracing-subscriber = { version = "=0.3.23", features = ["env-filter"] }
dotenvy = "=0.15.7"
log = "=0.4.35"
ulid = "=1.2.1"
anyhow = "=1.0.104"
logs-wheel = "=0.3.1"
