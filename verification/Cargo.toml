[package]
name = "cce_browser"
version = "0.1.0"
edition = "2021"
publish = false

[dependencies]
url = "2"
serde_json = "1"
log = "0.4"
env_logger = "0.11"
calloop = "0.14"
http = "1"
rustix = { version = "1", features = ["event"] }
euclid = "0.22"
dpi = "0.1"
wayland-client = "0.31"
zbus = "5"
secret-service = { version = "5", features = ["rt-async-io-crypto-rust"] }
reqwest = { version = "0.12", default-features = false, features = ["blocking", "rustls-tls"] }
rustls = { version = "0.23", default-features = false, features = ["ring", "std"] }
