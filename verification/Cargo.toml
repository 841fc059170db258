[package]
name = "minifetch"
version = "0.1.0"
edition = "2021"
publish = false

[dependencies]
reqwest = { version = "*", default-features = false }
napi = { version = "*", features = ["async"] }
napi-derive = "*"
