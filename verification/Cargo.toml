[package]
name = "music_library_cli"
version = "0.1.0"
edition = "2021"
publish = false

[dependencies]
crossterm = "*"
rodio = "*"
serde = { version = "1", features = ["derive"] }
serde_json = "1"
