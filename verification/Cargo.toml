[package]
name = "email"
version = "0.1.0"
edition = "2021"
publish = false

[dependencies]
base64 = "=0.13.1"
encoded-words = "*"
fast_chemail = "*"
mailparse = "=0.14.1"
mime = "=0.3.17"
rand = "=0.8.8"
time = { version = "=0.3.55", features = ["formatting", "local-offset"] }
uuid = { version = "=1.18.1", features = ["v4"] }
