[package]
name = "serenade"
version = "0.1.0"
edition = "2021"
publish = false

[dependencies]
base64 = "*"
chrono = "*"
cron = "*"
getrandom = "*"
hmac = "*"
r2d2 = "*"
redis = { version = "*", features = ["r2d2"] }
reddb-io-toon = "*"
serde = { version = "*", features = ["derive"] }
serde_json = "*"
sha2 = "*"
subtle = "*"
thiserror = "*"
