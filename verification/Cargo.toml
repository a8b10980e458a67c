[package]
name = "ananas_music_control"
version = "0.1.0"
edition = "2021"
publish = false

[dependencies]
embedded-graphics = "=0.8.2"
fontdue = { version = "=0.9.5", default-features = false, features = ["hashbrown"] }
rppal = "=0.22.1"
