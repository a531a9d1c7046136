[package]
name = "ttrpg_maker"
version = "0.1.0"
edition = "2021"
publish = false

[dependencies]
rand = "=0.8.8"
serde = { version = "=1.0.229", features = ["derive"] }
serde_json = "=1.0.154"
sqlite = "=0.30.5"
pithy = "=0.1.7"
console = { version = "=0.16.6", features = ["std"] }
hound = "=3.5.1"
anyhow = "=1.0.104"
whisper-rs = "=0.7.0"
eframe = { version = "=0.22.0", default-features = false, features = ["default_fonts", "glow"] }
