[package]
name = "skillchain"
version = "0.1.0"
edition = "2021"
publish = false

[dependencies]
frame-support = "*"
frame-system = "*"
sp-std = "*"
parity-scale-codec = { version = "*", features = ["derive"] }
scale-info = { version = "*", features = ["derive"] }
