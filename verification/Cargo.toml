[package]
name = "meme_store"
version = "0.1.0"
edition = "2021"
publish = false

[dependencies]
anyhow = "1"
async-trait = "0.1"
aws-config = "=1.12.0"
aws-sdk-dynamodb = "=1.131.0"
aws-sdk-s3 = "=1.152.0"
aws-types = "=1.6.0"
axum = { version = "0.8", features = ["multipart"] }
backoff = { version = "=0.4.0", features = ["tokio"] }
dotenvy = "0.15"
mime_guess = "=2.0.5"
serde = { version = "1", features = ["derive"] }
serde_json = "1"
thiserror = "1"
tokio = { version = "1", features = ["full"] }
tower-http = { version = "0.6", features = ["cors", "trace"] }
tracing = "0.1"
tracing-subscriber = { version = "0.3", features = ["env-filter"] }
uuid = { version = "=1.29.0", features = ["v4", "serde"] }
