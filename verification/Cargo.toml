[package]
name = "zombie_arena"
version = "0.1.0"
edition = "2021"
publish = false

[dependencies]
bevy = { version = "=0.19.1", default-features = false, features = ["std", "bevy_state", "bevy_asset", "bevy_window", "default_font", "bevy_sprite_render", "bevy_ui_render"] }
