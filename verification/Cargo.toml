[package]
name = "mkfat"
version = "0.1.0"
edition = "2021"
publish = false

[dependencies]
fatfs = "0.3"
serde_json = "1"
clap = { version = "4", features = ["derive"] }
