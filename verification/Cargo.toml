[package]
name = "colink"
version = "0.1.0"
edition = "2021"
publish = false

[dependencies]
similar = "=2.7.0"
base64 = "=0.22.1"
rand = "=0.8.8"
sha2 = "=0.10.9"
blake3 = { version = "=1.8.7", features = ["pure"] }
serde = { version = "=1.0.229", features = ["derive"] }
serde_json = "=1.0.154"
chrono = { version = "=0.4.45", default-features = false, features = ["std"] }
url = "=2.5.8"
uuid = { version = "=1.29.0", features = ["v4"] }
sanitize-filename = "=0.5.0"
hostname = "0.4"
dirs = "5"
