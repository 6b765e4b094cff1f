[package]
name = "simple-server-analytics"
version = "0.1.0"
edition = "2021"
publish = false

[dependencies]
anyhow = "=1.0.104"
chrono = { version = "=0.4.45", features = ["serde"] }
derive_more = "=0.99.20"
http = "=0.2.12"
pin-project = "=1.1.13"
salvo = "=0.58.5"
serde = { version = "=1.0.229", features = ["derive"] }
sqlx = { version = "=0.7.4", default-features = false, features = ["sqlite", "runtime-tokio"] }
tokio = "=1.54.1"
tokio-util = "=0.7.20"
tracing = "=0.1.44"
uuid = { version = "=1.29.0", features = ["v4", "v7"] }
