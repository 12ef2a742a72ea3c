[package]
name = "account_overlay"
version = "0.1.0"
edition = "2021"
publish = false

[dependencies]
keccak-hash = "*"
primitive-types = "*"
