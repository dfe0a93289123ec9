[package]
name = "yt-dlp-clipper"
version = "0.1.4"
edition = "2021"
publish = false

[dependencies]
anyhow = "=1.0.104"
arboard = { version = "=3.7.0", default-features = false }
eframe = { version = "=0.29.1", default-features = false, features = ["default_fonts", "glow", "persistence", "x11"] }
egui = { version = "=0.29.1", default-features = false, features = ["default_fonts"] }
egui_extras = { version = "=0.29.1", default-features = false }
ffmpeg-the-third = "1.2"
serde = { version = "=1.0.229", features = ["derive"] }
serde_json = "=1.0.154"
ureq = "=3.5.1"
