[package]
name = "harness"
version = "0.1.0"
edition = "2021"
publish = false

[dependencies]
uuid = { version = "=1.29.0", features = ["v4"] }
serde_json = "=1.0.154"
chrono = "=0.4.45"
cron = "=0.17.0"
serde = { version = "1", features = ["derive"] }
toml = "*"
