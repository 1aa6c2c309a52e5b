[package]
name = "rodash"
version = "0.1.0"
edition = "2021"
publish = false

[dependencies]
num = "0.4"
once_cell = "1"
rand = "0.9"
regex = "1"
