[package]
name = "aes_block"
version = "0.1.0"
edition = "2021"
publish = false

[dependencies]
hex = "0.4"
