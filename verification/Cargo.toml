[package]
name = "khudium"
version = "0.1.0"
edition = "2021"
publish = false

[dependencies]
clap = { version = "4", features = ["derive"] }
evdev = "*"
fontdue = "0.9"
tempfile = "3"
tiny-skia = "0.11"
wayland-client = "0.31"
wayland-protocols-wlr = { version = "0.3", features = ["client"] }
