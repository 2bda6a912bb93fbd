[package]
name = "tui_image"
version = "0.1.0"
edition = "2021"
publish = false

[dependencies]
image = { version = "0.24", default-features = false }
tui = { version = "0.19", default-features = false }
