[package]
name = "chron"
version = "0.1.0"
edition = "2021"
publish = false

[dependencies]
anyhow = "1"
async-trait = "0.1"
axum = "0.6"
base64 = "0.21"
config = { version = "0.13", default-features = false, features = ["toml"] }
dashmap = "5"
flate2 = "1"
futures = "0.3"
reqwest = { version = "0.11", default-features = false, features = ["json", "gzip", "brotli", "deflate"] }
sea-query = { version = "0.30", features = ["derive", "with-time", "with-uuid", "backend-postgres"] }
sea-query-binder = { version = "0.5", features = ["sqlx-postgres", "with-time", "with-uuid"] }
serde = { version = "1", features = ["derive"] }
serde_json = "1"
siphasher = "1"
sqlx = { version = "0.7", default-features = false, features = ["runtime-tokio", "postgres", "sqlite", "time", "uuid", "json", "macros", "migrate"] }
time = { version = "0.3", features = ["serde-well-known", "macros"] }
tokio = { version = "1", features = ["full"] }
tokio-tungstenite = "0.20"
tower-http = { version = "0.4", features = ["cors", "compression-full"] }
tracing = "0.1"
tracing-subscriber = "0.3"
uuid = { version = "1", features = ["serde"] }
