[package]
name = "grid_trader"
version = "0.1.0"
edition = "2021"
publish = false

[dependencies]
chrono = "=0.4.45"
dotenvy = "=0.15.7"
env_logger = "=0.11.11"
envy = "=0.4.2"
hex = "=0.4.3"
hmac = "=0.13.0"
log = "=0.4.34"
reqwest = { version = "=0.12.28", default-features = false, features = ["blocking", "json", "rustls-tls"] }
serde = { version = "=1.0.229", features = ["derive"] }
serde_json = "=1.0.154"
serde-this-or-that = "=0.5.0"
sha2 = "=0.11.1"
snafu = "=0.9.2"
sqlite = "=0.37.4"
