[package]
name = "dotty"
version = "0.1.0"
edition = "2021"
publish = false

[dependencies]
anyhow = "1"
chrono = "0.4"
clap = { version = "4", features = ["derive"] }
colored = "2"
dirs = "5"
git2 = { version = "0.19", default-features = false }
serde = { version = "1", features = ["derive"] }
serde_yaml = "0.9"
shellexpand = "3"
tempfile = "3"
walkdir = "2"
