[package]
name = "gdv8"
version = "0.1.0"
edition = "2021"
publish = false

[dependencies]
rusty_v8 = "*"
godot = "*"
