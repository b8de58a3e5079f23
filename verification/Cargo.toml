[package]
name = "midi_keypad"
version = "0.1.0"
edition = "2021"
publish = false

[dependencies]
anyhow = "=1.0.104"
env_logger = "=0.9.3"
jack = "=0.8.4"
libxdo = "=0.6.0"
log = "=0.4.34"
serde = { version = "=1.0.229", features = ["derive"] }
serde_with = "=1.14.0"
structopt = "=0.3.26"
toml = "=0.5.11"
wmidi = "=4.0.11"
