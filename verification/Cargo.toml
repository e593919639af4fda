[package]
name = "virtual_camera"
version = "0.1.0"
edition = "2021"
publish = false

[dependencies]
cgmath = "0.18"
log = "0.4"
sdl2 = "*"
simple_logger = "*"
