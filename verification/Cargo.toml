[package]
name = "servicio"
version = "0.1.0"
edition = "2021"
publish = false

[dependencies]
anyhow = "1"
chrono = "0.4"
clap = { version = "4", features = ["derive"] }
cron = "0.12"
fs2 = "0.4"
getrandom = "0.2"
rusqlite = { version = "*", features = ["bundled"] }
sentry = { version = "*", default-features = false }
sentry-tracing = "*"
serde = { version = "1", features = ["derive"] }
serde_json = "1"
sysinfo = "*"
thiserror = "*"
tokio = { version = "1", features = ["full"] }
tracing = "0.1"
tracing-subscriber = { version = "0.3", features = ["env-filter"] }
