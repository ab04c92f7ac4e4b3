[package]
name = "glview"
version = "0.1.0"
edition = "2021"
publish = false

[dependencies]
image = { version = "0.25", default-features = false, features = ["bmp", "png"] }
glow = "*"
glutin = "0.32"
glutin-winit = "0.5"
winit = "0.30"
reqwest = { version = "0.12", default-features = false }
tokio = { version = "1", features = ["rt-multi-thread", "macros"] }
