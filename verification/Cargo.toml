[package]
name = "pz"
version = "0.1.0"
edition = "2021"
publish = false

[dependencies]
anyhow = "=1.0.104"
bevy = { version = "=0.6.1", default-features = false, features = ["bevy_winit", "render", "png", "x11", "filesystem_watcher"] }
bevy_egui = { version = "0.10", default-features = false }
bevy_kira_audio = "0.8"
chrono = { version = "=0.4.45", features = ["serde"] }
dotenv = "=0.15.0"
futures-lite = "1"
lyon_geom = "0.17"
rand = "0.8"
ron = "0.7"
serde = { version = "=1.0.229", features = ["derive"] }
serde_json = "=1.0.154"
