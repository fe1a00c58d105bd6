[package]
name = "quic_stream"
version = "0.1.0"
edition = "2021"
publish = false

[dependencies]
derive_more = { version = "0.99", default-features = false, features = ["display", "error"] }
