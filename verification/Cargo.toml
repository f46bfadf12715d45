[package]
name = "sharded_kv"
version = "0.1.0"
edition = "2021"
publish = false

[dependencies]
axum = "*"
env-file-reader = "*"
redis = { version = "*", features = ["tokio-comp"] }
tokio = { version = "*", features = ["macros", "rt-multi-thread", "net"] }
tracing = "*"
tracing-subscriber = "*"
