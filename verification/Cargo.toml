[package]
name = "hex_terrain"
version = "0.1.0"
edition = "2021"
publish = false

[dependencies]
bevy = { version = "0.15", default-features = false, features = ["bevy_asset", "bevy_color", "bevy_core_pipeline", "bevy_pbr", "bevy_picking", "bevy_mesh_picking_backend", "bevy_render", "bevy_window", "bevy_winit", "x11"] }
