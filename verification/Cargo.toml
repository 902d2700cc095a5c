[package]
name = "ive"
version = "0.1.0"
edition = "2021"
publish = false

[dependencies]
tokio = { version = "1", features = ["rt-multi-thread", "macros", "net", "process", "io-util", "fs", "time", "sync"] }
redis = { version = "0.23", features = ["tokio-comp"] }
rust-s3 = "0.33"
serde = { version = "1", features = ["derive"] }
serde_json = "1"
futures = "0.3"
