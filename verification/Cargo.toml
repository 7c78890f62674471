[package]
name = "wireframe"
version = "0.1.0"
edition = "2021"
publish = false

[dependencies]
regex = "1"
gl = "0.14"
sdl2 = "0.32"
imgui = "0.0.22"
assimp = "0.3"
nalgebra-glm = "*"
time = "0.1"
