[package]
name = "patto_mobile"
version = "0.1.0"
edition = "2021"
publish = false

[dependencies]
base64 = "*"
git2 = { version = "*", default-features = false }
chrono = { version = "*", default-features = false, features = ["clock"] }
