[package]
name = "snake"
version = "0.1.0"
edition = "2021"
publish = false

[dependencies]
bevy = { version = "0.18", default-features = false }
bevy_ratatui = "0.11"
ratatui = "0.30"
rand = "0.9"
