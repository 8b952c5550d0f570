[package]
name = "music_player"
version = "0.1.0"
edition = "2021"
publish = false

[dependencies]
rand = "0.8"
clap = { version = "4", features = ["derive"] }
crossterm = "0.28"
ratatui = "0.29"
rodio = "0.20"

[dev-dependencies]
serde_json = "1"
