[package]
name = "editor_cam"
version = "0.1.0"
edition = "2021"
publish = false

[dependencies]
bevy_math = "=0.19.1"
