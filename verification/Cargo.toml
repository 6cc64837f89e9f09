[package]
name = "subreddit_updates"
version = "0.1.0"
edition = "2021"
publish = false

[dependencies]
anyhow = "*"
futures-util = "*"
redis = { version = "*", features = ["tokio-comp"] }
tokio = { version = "*", features = ["sync", "time", "rt", "macros"] }
tracing = "*"
