[package]
name = "context_generator"
version = "0.1.0"
edition = "2021"
publish = false

[dependencies]
glob = "*"
content_inspector = "*"
anyhow = "*"
clap = { version = "*", features = ["derive"] }
serde = { version = "*", features = ["derive"] }
serde_yaml = "*"
walkdir = "*"
