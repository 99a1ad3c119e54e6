[package]
name = "chordkb"
version = "0.1.0"
edition = "2021"
publish = false

[dependencies]
evdev = "=0.12.2"
toml = { version = "=0.8.23", features = ["preserve_order"] }
