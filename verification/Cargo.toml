[package]
name = "corporeum"
version = "0.1.0"
edition = "2021"
publish = false

[dependencies]
ciborium = "=0.2.2"
flate2 = "=1.1.10"
serde = { version = "=1.0.229", features = ["derive"] }
serde_json = { version = "=1.0.154", features = ["preserve_order"] }
thiserror = "=1.0.69"
