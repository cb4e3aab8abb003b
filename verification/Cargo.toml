[package]
name = "gamenv"
version = "0.1.0"
edition = "2021"
publish = false

[dependencies]
chrono = "=0.4.45"
rand = "=0.8.8"
uuid = { version = "=1.29.0", features = ["v4"] }
regex = "=1.13.1"
csv = "=1.4.0"
serde = { version = "=1.0.229", features = ["derive"] }
serde_json = "1"
