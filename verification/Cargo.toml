[package]
name = "raytracer"
version = "0.1.0"
edition = "2021"
publish = false

[dependencies]
pixels = "0.2"
rand = "0.8"
rand_distr = "0.4"
rayon = "1"
tobj = "2"
winit = "0.24"
winit_input_helper = "0.9"
