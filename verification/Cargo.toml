[package]
name = "config_struct"
version = "0.1.0"
edition = "2021"
publish = false

[dependencies]
ron = { version = "=0.8.1", features = ["indexmap"] }
failure = "=0.1.8"
