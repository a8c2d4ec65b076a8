[package]
name = "hms_render"
version = "0.1.0"
edition = "2021"
publish = false

[dependencies]
bytemuck = { version = "1", features = ["derive"] }
glam = "0.29"
half = "2"
wgpu = "24"
