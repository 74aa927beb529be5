[package]
name = "safebricks"
version = "0.1.0"
edition = "2021"
publish = false

[dependencies]
mbedtls = "*"
twox-hash = "*"
hex = "*"
ctrlc = "*"
