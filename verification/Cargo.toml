[package]
name = "confetti"
version = "0.1.0"
edition = "2021"
publish = false

[dependencies]
rand = "0.8"
gtk4 = "*"
gtk4-layer-shell = "*"
