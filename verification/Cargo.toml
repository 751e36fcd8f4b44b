[package]
name = "cache_gateway"
version = "0.1.0"
edition = "2021"
publish = false

[dependencies]
axum = "*"
axum-prometheus = "*"
base64 = "*"
serde = { version = "1", features = ["derive"] }
sqlx = { version = "*", default-features = false, features = ["postgres", "runtime-tokio", "macros"] }
tokio = { version = "1", features = ["full"] }
tokio-util = { version = "0.7", features = ["io"] }
tower-http = { version = "*", features = ["trace"] }
tracing = { version = "0.1", features = ["log"] }
