[package]
name = "hap"
version = "0.1.0"
edition = "2021"
publish = false

[dependencies]
hyper = "=0.14.32"
url = "=2.5.8"
serde_json = "=1.0.154"
serde = { version = "=1.0.229", features = ["derive"] }
rust-crypto = "=0.2.36"
rand = "=0.8.8"
httparse = "=1.10.1"
num-bigint = "=0.4.8"
