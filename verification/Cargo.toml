[package]
name = "genesis"
version = "0.1.0"
edition = "2021"
publish = false

[dependencies]
glam = "=0.30.10"
wgpu = "=22.1.0"
winit = "=0.30.13"
pollster = "=0.3.0"
log = "=0.4.34"
env_logger = "=0.11.11"
bytemuck = { version = "=1.25.2", features = ["derive"] }
