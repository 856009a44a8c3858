[package]
name = "cube_convert"
version = "0.1.0"
edition = "2021"
publish = false

[dependencies]
crossbeam-channel = "0.5"
hound = "3.5"
image = { version = "0.24", default-features = false, features = ["png", "jpeg"] }
pdf-extract = "0.7"
rayon = "1"
rusttype = "0.9"
