[package]
name = "speedsun"
version = "0.1.0"
edition = "2021"
publish = false

[dependencies]
eframe = { version = "*", default-features = false, features = ["wgpu", "default_fonts", "x11"] }
cgmath = "0.18"
bytemuck = { version = "1", features = ["derive"] }
itertools = "*"
