[package]
name = "openconsole"
version = "0.1.0"
edition = "2021"
publish = false

[dependencies]
serde = { version = "1", features = ["derive"] }
serde_json = "1"
nix = "0.26"
evdev = "0.12"
sdl2 = "0.36"
