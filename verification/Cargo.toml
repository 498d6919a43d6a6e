[package]
name = "kotlin_multiplatform_coverage"
version = "0.1.0"
edition = "2021"
publish = false

[dependencies]
anyhow = "1"
clap = { version = "4", features = ["derive"] }
env_logger = "0.11"
git2 = { version = "*", default-features = false }
log = "0.4"
prettytable-rs = "0.10"
regex = "1"
serde = { version = "1", features = ["derive"] }
serde_json = "1"
walkdir = "2"
