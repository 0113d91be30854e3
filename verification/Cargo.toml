[package]
name = "tuzminal"
version = "0.1.0"
edition = "2021"
publish = false

[dependencies]
unicode-width = "0.2"
anyhow = "1"
clap = { version = "4", features = ["derive"] }
serde = { version = "1", features = ["derive"] }
toml = "0.8"
log = "0.4"
env_logger = "0.11"
bytemuck = { version = "1", features = ["derive"] }
pollster = "0.4"
winit = "0.30"
wgpu = "*"
arboard = { version = "3", default-features = false }
rfd = "*"
