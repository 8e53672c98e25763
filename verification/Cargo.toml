[package]
name = "chronos"
version = "0.1.0"
edition = "2021"
publish = false

[dependencies]
glam = "0.30"
glow = "0.16"
glutin = "0.32"
raw-window-handle = "0.6"
thiserror = "2"
winit = "0.30"
