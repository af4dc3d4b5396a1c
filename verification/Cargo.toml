[package]
name = "client"
version = "0.1.0"
edition = "2021"
publish = false

[dependencies]
chrono = "=0.4.45"
log = "=0.4.34"
regex = "=1.13.1"
reqwest = "=0.12.28"
serde = { version = "=1.0.229", features = ["derive"] }
serde_urlencoded = "=0.7.1"
url = "=2.5.8"
