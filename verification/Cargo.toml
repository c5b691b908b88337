[package]
name = "task_timer"
version = "0.1.0"
edition = "2021"
publish = false

[dependencies]
chrono = "=0.4.45"
rand = "=0.8.8"
pretty-duration = "=0.1.1"
clap = { version = "=4.6.7", features = ["derive"] }
serde = { version = "=1.0.229", features = ["derive"] }
figment = { version = "=0.10.19", features = ["toml", "env"] }
color-eyre = "=0.6.5"
eframe = { version = "=0.31.1", default-features = false, features = ["default_fonts", "glow", "x11"] }
tokio = { version = "=1.54.1", features = ["rt-multi-thread"] }
minicaldav = "=0.8.0"
ureq = "=2.12.1"
url = { version = "=2.5.8", features = ["serde"] }
