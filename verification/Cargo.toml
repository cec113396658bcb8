[package]
name = "canvas_tex"
version = "0.1.0"
edition = "2021"
publish = false

[dependencies]
egui = { version = "0.23", default-features = false }
epaint = { version = "0.23", default-features = false }
micro_ndarray = "*"
