[package]
name = "niftymic_bot"
version = "0.1.0"
edition = "2021"
publish = false

[dependencies]
ulid = "*"
walkdir = "*"
zip = "*"
clap = { version = "*", features = ["derive"] }
log = "*"
pretty_env_logger = "*"
serde = { version = "*", features = ["derive"] }
config = "*"
