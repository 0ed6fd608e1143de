[package]
name = "request_core"
version = "0.1.0"
edition = "2021"
publish = false

[dependencies]
cookie = { version = "*", features = ["percent-encode"] }
url = "*"
form_urlencoded = "*"
