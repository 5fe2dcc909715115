[package]
name = "snake"
version = "0.1.0"
edition = "2021"
publish = false

[dependencies]
rand = "=0.8.8"
bevy = { version = "=0.15.3", default-features = false, features = ["bevy_sprite", "bevy_state", "bevy_window", "bevy_color", "bevy_core_pipeline", "bevy_render"] }
