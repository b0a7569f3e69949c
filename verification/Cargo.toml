[package]
name = "link_channels"
version = "0.1.0"
edition = "2021"
publish = false

[dependencies]
anyhow = "*"
arc-swap = "*"
async-stream = "*"
axum = "*"
chrono = "*"
futures = "*"
serde = { version = "*", features = ["derive"] }
serde_json = "*"
sqlx = { version = "*", default-features = false, features = ["sqlite", "runtime-tokio"] }
tokio = { version = "*", features = ["full"] }
tracing = "*"
utoipa = "*"
uuid = { version = "*", features = ["v4"] }
