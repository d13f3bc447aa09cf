[package]
name = "space_drive_game"
version = "0.1.0"
edition = "2021"
publish = false

[dependencies]
rand = "0.8"
noise = "0.8"
serde = { version = "1", features = ["derive"] }
serde_json = "1"
envy = "0.4"
log = "0.4"
env_logger = "0.10"
signal-hook = "0.3"
thiserror = "1"
