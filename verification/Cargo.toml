[package]
name = "mechanics"
version = "0.1.0"
edition = "2021"
publish = false

[dependencies]
bevy = { version = "0.14", default-features = false, features = ["bevy_state"] }
bevy-persistent = { version = "0.6", features = ["bincode"] }
bevy_tweening = { version = "0.11", default-features = false }
chrono = "0.4"
circular-queue = "0.2"
lazy_static = "1"
phf = { version = "0.11", features = ["macros"] }
rand = "0.8"
serde = { version = "1", features = ["derive"] }
