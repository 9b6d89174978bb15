[package]
name = "poem_cookie"
version = "0.1.0"
edition = "2021"
publish = false

[dependencies]
cookie = { version = "0.15", features = ["percent-encode", "private", "signed"] }
time = "0.2"
chrono = "0.4"
serde = { version = "1", features = ["derive"] }
serde_json = "1"
http = "0.2"
parking_lot = "0.11"
