[package]
name = "comsrv"
version = "0.1.0"
edition = "2021"
publish = false

[dependencies]
serde = { version = "=1.0.229", features = ["derive"] }
serde_json = "=1.0.154"
serde_yaml = "0.9"
async-trait = "=0.1.92"
chrono = "=0.4.45"
tokio = { version = "=1.54.1", features = ["sync", "time", "rt"] }
redis = { version = "0.25", default-features = false, features = ["aio", "tokio-comp"] }
