[package]
name = "breeze"
version = "0.1.0"
edition = "2021"
publish = false

[dependencies]
anyhow = "1"
gfx = "*"
gfx_core = "*"
gfx_device_gl = "*"
gfx_glyph = "*"
glutin = "*"
glutin-winit = "*"
image = { version = "*", default-features = false, features = ["png", "jpeg", "gif", "bmp"] }
old_school_gfx_glutin_ext = "*"
rust-fontconfig = "*"
winit = "*"
