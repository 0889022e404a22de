[package]
name = "cubedesu"
version = "0.1.0"
edition = "2021"
publish = false

[dependencies]
macroquad = { version = "0.3", default-features = false }
