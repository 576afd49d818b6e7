[package]
name = "cutboard"
version = "0.1.0"
edition = "2021"
publish = false

[dependencies]
image = { version = "*", default-features = false, features = ["png"] }
fancy-regex = "*"
base64 = "*"
chrono = "*"
