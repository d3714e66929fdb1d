[package]
name = "rowser"
version = "0.1.0"
edition = "2021"
publish = false

[dependencies]
html5ever = "0.22"
cgmath = "0.17"
env_logger = "0.6"
font-loader = "0.8"
gfx = "0.18"
gfx_glyph = "0.15"
gfx_window_glutin = "0.31"
glutin = "0.21"
reqwest = "0.9"
rusttype = "0.7"
spin_sleep = "0.3"
