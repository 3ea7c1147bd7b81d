[package]
name = "guest_runtime"
version = "0.1.0"
edition = "2021"
publish = false

[dev-dependencies]
postcard = { version = "*", features = ["use-std"] }
