[package]
name = "component_bus"
version = "0.1.0"
edition = "2021"
publish = false

[dependencies]
rand = "0.8"
nanoserde = "0.1"
env_logger = "0.9"
bytemuck = "1"
fps_counter = "2"
futures = "0.3"
ultraviolet = "0.9"
wgpu = "0.12"
wgpu_glyph = "0.16"
winit = "0.26"
