[package]
name = "mario_skurt"
version = "0.1.0"
edition = "2021"
publish = false

[dependencies]
glam = "*"
bytemuck = "*"
gltf = "*"
mikktspace = "*"
