[package]
name = "image_vault"
version = "0.1.0"
edition = "2021"
publish = false

[dependencies]
uuid = { version = "=1.27.0", features = ["v4", "serde"] }
percent-encoding = "=2.3.2"
anyhow = "*"
axum = "*"
axum_typed_multipart = "*"
dotenvy = "*"
sqlx = { version = "*", default-features = false, features = ["runtime-tokio", "postgres", "uuid"] }
tempfile = "*"
tokio = { version = "*", features = ["macros", "rt-multi-thread", "fs", "net"] }
tokio-util = { version = "*", features = ["io"] }
