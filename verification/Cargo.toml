[package]
name = "rust_rocket_sim"
version = "0.1.0"
edition = "2021"
publish = false

[dependencies]
nalgebra = "*"
ndarray = "*"
rand = "0.9"
rayon = "*"
