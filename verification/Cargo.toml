[package]
name = "gem12_display"
version = "0.1.0"
edition = "2021"
publish = false

[dependencies]
ab_glyph = "0.2"
anyhow = "1"
bytes = "1"
clap = { version = "4", features = ["derive"] }
env_logger = "0.11"
image = { version = "0.25", default-features = false }
imageproc = { version = "0.25", default-features = false }
log = "0.4"
regex = "1"
rusb = "0.9"
serde_json = "1"
tempfile = "3"
