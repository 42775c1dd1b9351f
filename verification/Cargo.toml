[package]
name = "tcg"
version = "0.1.0"
edition = "2021"
publish = false

[dependencies]
image = { version = "0.24", default-features = false }
rusttype = "0.9"
pixels = "0.12"
winit = "0.28"
