[package]
name = "local_image_db"
version = "0.1.0"
edition = "2021"
publish = false

[dependencies]
anyhow = "1"
blake3 = { version = "1", features = ["pure"] }
chrono = "0.4"
clap = { version = "4", features = ["derive", "env"] }
crossterm = "0.28"
directories = "*"
kamadak-exif = "*"
indicatif = { version = "0.17", features = ["rayon"] }
ratatui = "0.29"
rayon = "1"
rusqlite = { version = "*", features = ["bundled"] }
serde = { version = "1", features = ["derive"] }
toml = "*"
walkdir = "2"
