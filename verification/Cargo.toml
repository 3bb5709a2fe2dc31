[package]
name = "rasm"
version = "0.1.0"
edition = "2021"
publish = false

[dependencies]
fnv = "1"
memmap = "0.7"
