[package]
name = "camera_backup"
version = "0.1.0"
edition = "2021"
publish = false

[dependencies]
kamadak-exif = "*"
chrono = "*"
walkdir = "*"
clap = { version = "*", features = ["derive"] }
ctrlc = "*"
anyhow = "*"
log = "*"
env_logger = "*"
prost-types = "*"
tokio = { version = "*", features = ["rt-multi-thread", "sync", "fs", "macros", "time"] }
tokio-stream = "*"
tonic = "*"
