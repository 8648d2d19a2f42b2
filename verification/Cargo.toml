[package]
name = "zkp_rs"
version = "0.1.0"
edition = "2021"
publish = false

[dependencies]
sha2 = "*"
hex = "*"
p3-field = "*"
p3-goldilocks = "*"
