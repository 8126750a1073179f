[package]
name = "runner"
version = "0.1.0"
edition = "2021"
publish = false

[dependencies]
anyhow = "1"
clap = { version = "4", features = ["derive"] }
csv = "1"
dialoguer = "0.11"
env_logger = "0.11"
include_dir = "0.7"
log = "0.4"
os_info = "3"
serde = { version = "1", features = ["derive"] }
serde_json = "1"
tempfile = "3"
uuid = { version = "1", features = ["v4"] }
walkdir = "2"
