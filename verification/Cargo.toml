[package]
name = "fractal_viewport"
version = "0.1.0"
edition = "2021"
publish = false
