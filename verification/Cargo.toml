[package]
name = "doorbell"
version = "0.1.0"
edition = "2021"
publish = false

[dependencies]
chrono = "*"
config = "*"
paho-mqtt = "*"
rppal = "*"
serde = { version = "*", features = ["derive"] }
