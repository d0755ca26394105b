[package]
name = "bucket_brigade"
version = "0.1.0"
edition = "2021"
publish = false

[dependencies]
anyhow = "*"
aws-config = "*"
aws-sdk-s3 = "*"
chrono = "*"
crossterm = "*"
directories = "*"
futures = "*"
ratatui = "*"
regex = "*"
serde = { version = "*", features = ["derive"] }
serde_json = "*"
tokio = { version = "*", features = ["macros", "rt-multi-thread"] }
urlencoding = "*"
uuid = { version = "*", features = ["v4"] }
