[package]
name = "minka_fx"
version = "0.1.0"
edition = "2021"
publish = false

[dependencies]
calloop = "0.14"
calloop-wayland-source = "0.4"
pollster = "0.4"
raw-window-handle = "0.6"
serde_json = "1"
smithay-client-toolkit = { version = "0.20", default-features = false, features = ["calloop"] }
wayland-backend = { version = "0.3", features = ["client_system", "dlopen"] }
wayland-client = "0.31"
wgpu = { version = "26", default-features = false, features = ["std", "vulkan", "wgsl"] }
