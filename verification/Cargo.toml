[package]
name = "filecrab"
version = "0.1.0"
edition = "2021"
publish = false

[dependencies]
unic-langid = "*"
axum = "*"
tokio = { version = "*", features = ["full"] }
serde = { version = "*", features = ["derive"] }
anyhow = "*"
config = "*"
tracing = "*"
tracing-subscriber = { version = "*", features = ["env-filter", "json"] }
tower-http = { version = "*", features = ["trace"] }
chrono = "*"
uuid = { version = "*", features = ["v4"] }
