[package]
name = "stage2d"
version = "0.1.0"
edition = "2021"
publish = false

[dependencies]
etagere = "*"
lru = "*"
slotmap = "*"
glam = "*"
palette = "*"
itertools = "*"
lyon = "*"
cosmic-text = "*"
bytemuck = { version = "*", features = ["derive"] }
wgpu = "*"
winit = "*"
pollster = "*"
