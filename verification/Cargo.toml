[package]
name = "ucg"
version = "0.1.0"
edition = "2021"
publish = false

[dependencies]
toml = "=0.4.10"
