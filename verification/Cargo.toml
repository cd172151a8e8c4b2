[package]
name = "todo_r"
version = "0.7.3"
edition = "2021"
publish = false

[dependencies]
regex = "1"
fnv = "1"
ansi_term = "0.11"
clap = "2"
config = "0.9"
dialoguer = "0.3"
dirs = "1"
env_logger = "0.6"
failure = "0.1"
ignore = "0.4"
log = "0.4"
serde = { version = "1", features = ["derive"] }
serde_json = "1"
