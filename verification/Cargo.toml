[package]
name = "latcarf"
version = "0.1.0"
edition = "2021"
publish = false

[dependencies]
clap = { version = "*", features = ["derive"] }
env_logger = "*"
log = "*"
sdl2 = { version = "*", features = ["gfx"] }
glium = "*"
image = "*"
itertools = "*"
font-kit = "*"
pathfinder_geometry = "*"
