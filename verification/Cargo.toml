[package]
name = "druum"
version = "0.1.0"
edition = "2021"
publish = false

[dependencies]
rand = "=0.9.5"
serde = { version = "=1.0.229", features = ["derive"] }
bevy = { version = "=0.18.1", default-features = false, features = ["std", "bevy_state", "bevy_log", "keyboard"] }
ron = "=0.12.3"
