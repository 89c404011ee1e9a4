[package]
name = "camview"
version = "0.1.0"
edition = "2021"
publish = false

[dependencies]
image = "*"
nokhwa = "*"
sdl2 = "*"
