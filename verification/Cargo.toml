[package]
name = "flywheel"
version = "0.1.0"
edition = "2021"
publish = false

[dependencies]
chrono = "0.4"
uuid = "1"
wasm-rs-async-executor = "*"
