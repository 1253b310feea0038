[package]
name = "slint_logic"
version = "0.1.0"
edition = "2021"
publish = false

[dependencies]
i-slint-core = { version = "=1.13.1", features = ["software-renderer"] }
i-slint-common = "=1.13.1"
bytemuck = { version = "=1.25.2", features = ["derive"] }
drm = "=0.14.1"
winit = { version = "=0.30.13", default-features = false, features = ["x11", "rwh_06"] }
sixtyfps-compilerlib = "=0.1.6"
