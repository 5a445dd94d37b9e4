[package]
name = "ferum-greet"
version = "0.1.0"
edition = "2021"
publish = false

[dependencies]
anyhow = "1"
bytemuck = { version = "1", features = ["derive"] }
drm = "*"
env_logger = "*"
evdev = "*"
glyphon = "*"
greetd_ipc = { version = "*", features = ["sync-codec"] }
image = { version = "*", default-features = false, features = ["png", "jpeg"] }
log = "0.4"
pollster = "*"
resvg = "*"
serde = { version = "1", features = ["derive"] }
shell-words = "1"
tiny-skia = "*"
toml = "*"
usvg = "*"
wgpu = "*"
