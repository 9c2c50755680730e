[package]
name = "sprite_batch"
version = "0.1.0"
edition = "2021"
publish = false

[dependencies]
glium = "*"
image = "*"
rand = "*"
serde = { version = "*", features = ["derive"] }
serde_yaml = "*"
winit = "*"
