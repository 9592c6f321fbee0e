[package]
name = "opencrosshair"
version = "0.1.0"
edition = "2021"
publish = false

[dependencies]
wgpu = "=30.0.1"
bytemuck = { version = "=1.25.2", features = ["derive"] }
clap = { version = "=4.6.7", features = ["derive"] }
env_logger = "=0.11.11"
image = { version = "=0.25.10", default-features = false, features = ["png", "jpeg", "gif", "bmp", "webp", "ico", "tga", "pnm", "qoi", "tiff", "hdr", "exr", "dds", "ff"] }
pollster = "=1.0.1"
raw-window-handle = "=0.6.2"
smithay-client-toolkit = { version = "=0.20.0", default-features = false }
wayland-backend = { version = "=0.3.17", features = ["client_system", "dlopen"] }
wayland-client = "=0.31.15"
