[package]
name = "card_table"
version = "0.1.0"
edition = "2021"
publish = false

[dependencies]
rand = "=0.9.5"
bevy = { version = "=0.16.1", default-features = false, features = ["std", "async_executor", "bevy_asset", "bevy_color", "bevy_core_pipeline", "bevy_log", "bevy_render", "bevy_sprite", "bevy_state", "bevy_window", "bevy_winit", "multi_threaded", "png", "x11"] }
