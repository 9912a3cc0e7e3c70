[package]
name = "octy_services"
version = "0.1.0"
edition = "2021"
publish = false

[dependencies]
serde = { version = "1", features = ["derive"] }
serde_json = "1"
chrono = "0.4"
regex-lite = "0.1"
url = "2"
spin-sdk = "*"
