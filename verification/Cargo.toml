[package]
name = "scorcher_core"
version = "0.1.0"
edition = "2021"
publish = false

[dependencies]
bevy = { version = "=0.16.1", default-features = false, features = ["bevy_window", "bevy_pbr", "bevy_core_pipeline", "bevy_render", "bevy_asset", "bevy_state"] }
bevy_rapier3d = { version = "=0.30.0", default-features = false, features = ["dim3"] }
