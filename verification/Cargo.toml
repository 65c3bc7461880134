[package]
name = "egui_rasterizer"
version = "0.1.0"
edition = "2021"

[dependencies]
egui = "0.18"
tiny-skia = "0.6"
