[package]
name = "sph_fluid"
version = "0.1.0"
edition = "2021"
publish = false

[dependencies]
bevy = { version = "0.15", default-features = false, features = ["bevy_asset", "bevy_core_pipeline", "bevy_render", "bevy_sprite", "bevy_winit", "multi_threaded", "x11"] }
bevy_pancam = { version = "0.17", default-features = false }
