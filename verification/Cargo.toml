[package]
name = "powder"
version = "0.1.0"
edition = "2021"
publish = false

[dependencies]
femtovg = "0.3"
glutin = "0.28"
nalgebra-glm = "*"
