[package]
name = "unt_rust_ed"
version = "0.1.0"
edition = "2021"
publish = false

[dependencies]
extism = "1"
extism-manifest = "1"
page_size = "0.6"
tempfile = "3"
