[package]
name = "rusty_tesseract"
version = "0.1.0"
edition = "2021"
publish = false

[dependencies]
image = "0.24"
tempfile = "3"
