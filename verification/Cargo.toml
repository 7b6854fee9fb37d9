[package]
name = "invader"
version = "0.1.0"
edition = "2021"
publish = false

[dependencies]
bincode = "1"
serde = { version = "1", features = ["derive"] }
sdl2 = "*"
nalgebra = "*"
ncollide2d = "*"
nphysics2d = "*"
