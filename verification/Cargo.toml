[package]
name = "bad_pong"
version = "0.1.0"
edition = "2021"
publish = false

[dependencies]
glam = "0.23"
pixels = "0.11"
rand = "0.8"
winit = "0.28"
winit_input_helper = "0.14"
