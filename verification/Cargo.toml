[package]
name = "otel_export"
version = "0.1.0"
edition = "2021"
publish = false

[dependencies]
rand = "=0.8.8"
libcnb = "=0.30.4"

[dev-dependencies]
serde_json = "=1.0.151"
