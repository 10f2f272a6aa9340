[package]
name = "block_validator"
version = "0.1.0"
edition = "2021"
publish = false

[dependencies]
cpython = "=0.7.2"
log = "=0.4.35"
uluru = "=2.2.0"
