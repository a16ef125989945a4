[package]
name = "objview"
version = "0.1.0"
edition = "2021"
publish = false

[dependencies]
glam = "*"
glium = "0.32"
image = "0.24"
