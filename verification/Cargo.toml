[package]
name = "xrf1"
version = "0.1.0"
edition = "2021"
publish = false

[dependencies]
base64 = "0.22"
chrono = "0.4"
getrandom = "0.3"
hex = "0.4"
rand = "0.9"
ring = "0.17"
sha2 = "0.10"
uuid = { version = "1", features = ["v4"] }
