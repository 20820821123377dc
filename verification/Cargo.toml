[package]
name = "pseudo_term"
version = "0.1.0"
edition = "2021"
publish = false

[dependencies]
winit = { version = "=0.28.7", default-features = false, features = ["x11"] }
