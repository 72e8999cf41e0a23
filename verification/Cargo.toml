[package]
name = "srs2dge_gui"
version = "0.1.0"
edition = "2021"
publish = false

[dependencies]
glam = "*"
log = "*"
bytemuck = { version = "*", features = ["derive"] }
