[package]
name = "bevy_scene_editor"
version = "0.1.0"
edition = "2021"
publish = false

[dependencies]
bevy = { version = "=0.18.1", default-features = false }
bevy-inspector-egui = { version = "=0.36.0", default-features = false }
