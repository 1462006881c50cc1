[package]
name = "oxipipe"
version = "0.1.0"
edition = "2021"
publish = false

[dependencies]
bollard = "0.18"
chrono = "0.4"
clap = { version = "4", features = ["derive"] }
cron = "0.12"
dotenv = "0.15"
futures = "0.3"
humantime = "2"
log = "0.4"
serde = { version = "1", features = ["derive"] }
serde_yaml = "0.9"
tokio = { version = "1", features = ["full"] }
tracing = "0.1"
tracing-subscriber = "0.3"
