[package]
name = "tid"
version = "1.0.0"
edition = "2021"
publish = false

[dependencies]
anyhow = "=1.0.104"
axum = { version = "=0.8.9", features = ["multipart"] }
calamine = "=0.26.1"
chrono = "=0.4.45"
clap = { version = "=4.6.7", features = ["derive"] }
rust_xlsxwriter = "=0.82.0"
serde = { version = "=1.0.229", features = ["derive"] }
serde_json = "=1.0.154"
tokio = { version = "=1.54.1", features = ["full"] }
tower-http = { version = "=0.6.11", features = ["cors", "trace"] }
tracing = "=0.1.44"
tracing-subscriber = "=0.3.23"
uuid = { version = "=1.29.0", features = ["v4"] }
zip = { version = "~2.2", default-features = false, features = ["deflate"] }
