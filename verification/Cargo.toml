[package]
name = "buck"
version = "0.1.0"
edition = "2021"
publish = false

[dependencies]
evdev = "0.12"
genpdf = "0.2"
id3 = "1"
nix = "0.26"
serde = { version = "1", features = ["derive"] }
serde_json = "1"
walkdir = "2"
winit = "0.28"
