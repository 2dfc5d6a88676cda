[package]
name = "cipher_suite"
version = "0.1.0"
edition = "2021"
publish = false

[dependencies]
chacha20 = "0.9"
