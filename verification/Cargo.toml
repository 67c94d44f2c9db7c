[package]
name = "guildflow"
version = "0.1.0"
edition = "2021"
publish = false

[dependencies]
axum = { version = "*", features = ["ws"] }
chrono = "*"
dotenvy = "*"
futures = "*"
serde = { version = "*", features = ["derive"] }
serde_json = "*"
thiserror = "*"
tokio = { version = "*", features = ["full"] }
tracing = "*"
tracing-subscriber = "*"
uuid = { version = "*", features = ["v4"] }
