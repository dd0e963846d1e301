[package]
name = "nice_trader"
version = "0.1.0"
edition = "2021"
publish = false

[dependencies]
uuid = { version = "=1.29.0", features = ["v4"] }
rand = "=0.9.5"
chrono = "=0.4.45"
serde = { version = "=1.0.229", features = ["derive"] }
serde_json = "=1.0.154"
figment = { version = "=0.10.19", features = ["toml", "env"] }
tracing = "=0.1.44"
tracing-subscriber = { version = "=0.3.23", features = ["env-filter"] }
tracing-appender = "=0.2.5"
anyhow = "=1.0.104"
rustls = { version = "=0.23.46", default-features = false, features = ["ring", "std"] }
webpki-roots = "=1.0.10"
ustr = "1"
