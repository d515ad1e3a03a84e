[package]
name = "pista_feeds"
version = "0.1.0"
edition = "2021"
publish = false

[dependencies]
anyhow = "=1.0.104"
clap = { version = "=3.2.25", features = ["derive"] }
env_logger = "=0.11.11"
log = "=0.4.34"
mpd = "=0.1.0"
