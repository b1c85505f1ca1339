[package]
name = "lsystem_plant"
version = "0.1.0"
edition = "2021"
publish = false

[dependencies]
rand = "=0.9.5"
bevy = { version = "=0.17.3", default-features = false, features = ["bevy_winit", "bevy_pbr", "x11"] }
bevy_egui = { version = "=0.37.1", default-features = false, features = ["render", "default_fonts"] }
