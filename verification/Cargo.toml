[package]
name = "preprintd"
version = "0.7.2"
edition = "2021"
publish = false

[dependencies]
anyhow = "=1.0.104"
base64 = "=0.22.1"
rand = "=0.10.3"
reqwest = { version = "=0.13.5", features = ["blocking", "json"] }
rustls = "=0.23.46"
rustls-platform-verifier = "=0.7.1"
serde = { version = "=1.0.229", features = ["derive"] }
serde_json = "=1.0.154"
sha2 = "=0.10.9"
socket2 = "=0.6.5"
uuid = { version = "=1.29.0", features = ["v4"] }
zbus = "=5.19.0"
