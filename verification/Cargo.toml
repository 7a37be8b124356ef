[package]
name = "nodecask"
version = "0.1.0"
edition = "2021"
publish = false

[dependencies]
pulldown-cmark = "=0.13.6"
html2text = "=0.17.4"
regex = "=1.13.1"
argon2 = { version = "=0.5.3", features = ["std"] }
serde = { version = "=1.0.229", features = ["derive"] }
serde_json = "=1.0.154"
chrono = "=0.4.45"
base64 = "=0.22.1"
grass = { version = "=0.13.4", default-features = false }
url = "=2.5.8"
percent-encoding = "=2.3.2"
regex-syntax = "=0.8.11"
