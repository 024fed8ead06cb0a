[package]
name = "url_shortener_with_a_twist"
version = "0.1.0"
edition = "2021"
publish = false

[dependencies]
base64 = "*"
chrono = "*"
rand = "*"
url = "*"
uuid = { version = "*", features = ["v4"] }
validator = "*"
