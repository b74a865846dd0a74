[package]
name = "cms_for_rust"
version = "0.1.0"
edition = "2021"
publish = false

[dependencies]
http = "=1.5.0"
jwt = "0.16"
hmac = "0.12"
sha2 = "0.10"
serde_json = "1"
ring = "0.17"
chrono = "0.4"
