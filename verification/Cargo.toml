[package]
name = "image_renamer"
version = "0.1.0"
edition = "2021"
publish = false

[dependencies]
anyhow = "1"
async-openai = "0.20"
base64 = "0.22"
chrono = "0.4"
clap = { version = "4", features = ["derive"] }
ctrlc = "3"
dialoguer = "0.11"
figment = { version = "0.10", features = ["json"] }
fs-err = "2"
indicatif = "0.17"
infer = "0.15"
kamadak-exif = "0.5"
serde_json = "1"
tokio = { version = "1", features = ["macros", "rt-multi-thread"] }
walkdir = "2"
xdg = "2"
