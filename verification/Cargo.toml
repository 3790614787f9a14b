[package]
name = "decimator"
version = "0.1.0"
edition = "2021"
publish = false

[dependencies]
anyhow = "*"
clap = { version = "*", features = ["derive"] }
fs2 = "*"
indicatif = "*"
log = "*"
pretty_env_logger = "*"
walkdir = "*"
