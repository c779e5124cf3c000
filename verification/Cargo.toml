[package]
name = "zkemail_layout"
version = "0.1.0"
edition = "2021"
publish = false

[dependencies]
tera = "=1.20.1"
serde = { version = "=1.0.229", features = ["derive"] }
serde_json = "=1.0.151"
base64 = "=0.22.1"
anyhow = "=1.0.104"
