[package]
name = "master_of_coin_backend"
version = "0.1.0"
edition = "2021"
publish = false

[dependencies]
bigdecimal = "0.4"
chrono = "0.4"
cron = "*"
csv = "1"
urlencoding = "2"
base64 = "0.22"
aes-gcm = "0.10"
rand = "0.8"
uuid = { version = "1", features = ["v4"] }
serde = { version = "1", features = ["derive"] }
serde_json = "1"
thiserror = "1"
