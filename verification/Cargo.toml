[package]
name = "work_summary"
version = "0.1.0"
edition = "2021"
publish = false

[dependencies]
anyhow = "*"
chrono = "*"
clap = { version = "*", features = ["derive"] }
comfy-table = "*"
csv = "*"
git2 = "*"
owo-colors = "*"
serde = { version = "*", features = ["derive"] }
serde_json = "*"
walkdir = "*"
