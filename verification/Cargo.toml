[package]
name = "ewm_core"
version = "0.1.0"
edition = "2021"

[dependencies]
anyhow = "=1.0.104"
async-io = "=2.6.0"
emacs = "=0.19.0"
image = { version = "=0.25.10", default-features = false, features = ["png"] }
libc = "=0.2.191"
sd-notify = "=0.4.5"
serde = { version = "=1.0.229", features = ["derive"] }
serde_json = "=1.0.154"
smithay = { version = "=0.7.0", default-features = false, features = ["desktop", "wayland_frontend", "renderer_gl", "backend_egl", "backend_winit"] }
smithay-drm-extras = { version = "=0.1.0", default-features = false }
tracing = "=0.1.44"
tracing-subscriber = { version = "=0.3.23", features = ["env-filter"] }
wayland-client = "=0.31.15"
wayland-protocols-misc = { version = "=0.3.12", features = ["client"] }
zbus = "=5.19.0"
