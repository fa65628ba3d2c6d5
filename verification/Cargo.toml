[package]
name = "switchyard"
version = "0.1.0"
edition = "2021"
publish = false

[dependencies]
aes-gcm = "=0.10.3"
argon2 = "=0.5.3"
rand = "=0.8.8"
reqwest = { version = "=0.13.5", default-features = false, features = ["json"] }
anyhow = "=1.0.104"
crossterm = "=0.29.0"
inquire = "=0.9.4"
keyring = "=4.2.0"
keyring-core = "=1.0.1"
ratatui = { version = "=0.30.2", features = ["unstable-rendered-line-info"] }
serde = { version = "=1.0.229", features = ["derive"] }
serde_json = "=1.0.154"
tokio = { version = "=1.54.1", features = ["rt-multi-thread"] }
tracing = "=0.1.44"
tracing-appender = "=0.2.5"
tracing-subscriber = { version = "=0.3.23", features = ["env-filter", "json"] }
