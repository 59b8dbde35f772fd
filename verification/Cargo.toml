[package]
name = "gif_ascii"
version = "0.1.0"
edition = "2021"
publish = false

[dependencies]
image = "*"
ndarray = "*"
rayon = "*"
base64 = "*"
