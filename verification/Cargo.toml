[package]
name = "micro_doom_rs"
version = "0.1.0"
edition = "2021"
publish = false

[dependencies]
nalgebra-glm = "*"
rand = "*"
