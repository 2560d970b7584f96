[package]
name = "timely_server"
version = "0.1.0"
edition = "2021"
publish = false

[dependencies]
blake3 = "1"
hmac = "0.12"
sha2 = "0.10"
jwt = "0.16"
serde = { version = "1", features = ["derive"] }
serde_json = "1"
form_urlencoded = "1"
serde_urlencoded = "0.7"
time = { version = "0.3", features = ["formatting", "parsing"] }
cookie = "0.18"
http = "*"
maud = "*"
wcgi = "*"
wasix_http_client = "*"
