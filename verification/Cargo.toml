[package]
name = "fractal"
version = "0.1.0"
edition = "2021"
publish = false

[dependencies]
rayon = "1"
winit = "0.28"
softbuffer = "0.2"
