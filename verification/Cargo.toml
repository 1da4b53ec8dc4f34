[package]
name = "flatcaster"
version = "0.1.0"
edition = "2021"
publish = false

[dependencies]
rand = "0.8"
rand_chacha = "0.3"
winit = { version = "0.30", default-features = false, features = ["rwh_06", "x11"] }
wgpu = { version = "22", default-features = false, features = ["wgsl"] }
glyphon = "0.6"
gilrs = { version = "0.10", default-features = false }
bytemuck = { version = "1", features = ["derive"] }
pollster = "0.3"
env_logger = "0.11"
log = "0.4"
