[package]
name = "triskelion"
version = "0.1.0"
edition = "2021"
publish = false

[dependencies]
bevy = { version = "=0.18.1", default-features = false, features = ["bevy_log"] }
serde = { version = "=1.0.229", features = ["derive"] }
fastnoise-lite = "=1.1.1"
