[package]
name = "echo_cfr"
version = "0.1.0"
edition = "2021"
publish = false

[dependencies]
bumpalo = { version = "3", features = ["collections"] }
rand = "0.8"
smallvec = "1"
