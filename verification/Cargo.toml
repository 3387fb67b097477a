[package]
name = "capability_router"
version = "0.1.0"
edition = "2021"
publish = false

[dependencies]
byteorder = "1"
pretty = "*"
failure = "0.1"
