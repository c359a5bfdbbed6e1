[package]
name = "forest_rendering"
version = "0.1.0"
edition = "2021"
publish = false

[dependencies]
bevy = { version = "0.8", default-features = false, features = ["render"] }
bevy-inspector-egui = { version = "0.12", default-features = false }
