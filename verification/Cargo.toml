[package]
name = "elib2kicad"
version = "0.1.0"
edition = "2021"
publish = false

[dependencies]
chrono = "*"
uuid = { version = "*", features = ["v4"] }
serde_json = "*"
zip = { version = "*", default-features = false, features = ["deflate"] }
