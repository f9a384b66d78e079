[package]
name = "image_index"
version = "0.1.0"
edition = "2021"
publish = false

[dependencies]
walkdir = "2"
notify = "*"

[dev-dependencies]
tempfile = "3"
