[package]
name = "filter_engine"
version = "0.1.0"
edition = "2021"
publish = false

[dependencies]
envoy-dynamic-modules-rust-sdk = "*"
serde = { version = "1", features = ["derive"] }
serde_json = "1"
