[package]
name = "codex_sound_manager"
version = "0.1.0"
edition = "2021"
publish = false

[dependencies]
toml_edit = "0.22"
serde_json = "1"
serde = { version = "1", features = ["derive"] }
chrono = "0.4"
