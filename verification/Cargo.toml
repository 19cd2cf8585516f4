[package]
name = "tinywind"
version = "0.1.0"
edition = "2021"
publish = false

[dependencies]
serde_json = "1"
clap = { version = "3", features = ["derive"] }
env_logger = "0.9"
html5ever = "0.26"
log = "0.4"
markup5ever_rcdom = "0.2"
notify = "4"
