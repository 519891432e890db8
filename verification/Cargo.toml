[package]
name = "wasi_gateway"
version = "0.1.0"
edition = "2021"
publish = false

[dependencies]
serde_json = "1"
wasi = "0.14"
