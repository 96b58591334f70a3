[package]
name = "fractal"
version = "0.1.0"
edition = "2021"
publish = false

[dependencies]
rayon = "1"
rand = "0.8"
pixels = "0.11"
winit = "0.28"
winit_input_helper = "0.14"
