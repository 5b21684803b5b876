[package]
name = "glyph_canvas"
version = "0.1.0"
edition = "2021"
publish = false

[dependencies]
crossfont = "0.2"
pixels = "0.2"
winit = "0.24"
