[package]
name = "postmarkee"
version = "0.1.0"
edition = "2021"
publish = false

[dependencies]
url = "2"
reqwest = { version = "0.11", default-features = false }

[dev-dependencies]
base64 = "0.13"
chrono = "0.4"
serde_json = "1"
