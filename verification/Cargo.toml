[package]
name = "easy_fs"
version = "0.1.0"
edition = "2021"
publish = false

[dependencies]
bitflags = "*"
lazy_static = "*"
spin = "*"
