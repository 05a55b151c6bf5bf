[package]
name = "bundle_vault"
version = "0.1.0"
edition = "2021"
publish = false

[dependencies]
zip = { version = "*", default-features = false, features = ["deflate"] }
tokio = { version = "*", features = ["rt-multi-thread", "macros", "net"] }
axum = { version = "*", features = ["multipart"] }
redis = { version = "*", features = ["tokio-comp"] }
sqlx = { version = "*", default-features = false, features = ["runtime-tokio", "postgres"] }
aws-sdk-s3 = { version = "*", default-features = false }
serde_json = "*"
log = "*"
env_logger = "*"
dotenv = "*"
anyhow = "*"
thiserror = "*"
indexmap = "*"
