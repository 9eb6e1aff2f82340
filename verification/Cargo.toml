[package]
name = "dx_forge"
version = "0.1.0"
edition = "2021"
publish = false

[dependencies]
uuid = { version = "*", features = ["v4"] }
chrono = "*"
sha2 = "*"
hmac = "*"
hex = "*"
lz4 = "*"
memchr = "*"
notify = "*"
notify-debouncer-full = "*"
anyhow = "*"
serde_json = "*"
