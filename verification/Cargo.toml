[package]
name = "ring_core"
version = "0.1.0"
edition = "2021"
publish = false

[dependencies]
regex = "=1.13.1"
pdf-extract = "=0.12.1"
serde = { version = "=1.0.229", features = ["derive"] }
serde_json = "=1.0.154"
serde_yaml = "=0.9.34"
aes-gcm = "=0.10.3"
base64 = "=0.22.1"
rand = "=0.9.5"
magic-crypt = "=4.0.1"
chrono = "=0.4.45"
ulid = "=1.2.1"
url = "2"
urlencoding = "2"
