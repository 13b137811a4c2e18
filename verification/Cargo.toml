[package]
name = "piserverrust"
version = "0.1.0"
edition = "2021"
publish = false

[dependencies]
rustc-serialize = "0.3"

[dev-dependencies]
bufstream = "0.1"
