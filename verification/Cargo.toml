[package]
name = "actix-http"
version = "0.1.0"
edition = "2021"
publish = false

[dependencies]
base64 = "0.10"
bytes = "0.4"
futures = "0.1"
h2 = "0.1"
http = "0.1"
mime = "0.3"
rand = "0.6"
serde = "1.0"
serde_json = "1.0"
sha1 = "0.6"
tokio-io = "0.1"
