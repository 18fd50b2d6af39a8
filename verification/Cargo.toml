[package]
name = "iaretis"
version = "0.1.0"
edition = "2021"
publish = false

[dependencies]
anyhow = "=1.0.104"
async-trait = "=0.1.92"
base64 = "=0.22.1"
bytes = "=1.12.1"
h2 = "=0.4.20"
hickory-proto = "=0.26.3"
hickory-resolver = { version = "=0.26.3", features = ["tls-ring"] }
hickory-server = "=0.26.3"
http = "=1.5.0"
rustls = { version = "=0.23.46", default-features = false, features = ["ring", "std", "tls12", "logging"] }
tokio = { version = "=1.54.1", features = ["full"] }
tokio-rustls = { version = "=0.26.6", default-features = false, features = ["ring", "tls12", "logging"] }
tracing = "=0.1.44"
tracing-subscriber = { version = "=0.3.23", features = ["env-filter"] }
