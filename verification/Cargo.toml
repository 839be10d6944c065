[package]
name = "portwatch"
version = "0.1.0"
edition = "2021"
publish = false

[dependencies]
chrono = "*"
unicode-width = "*"
ratatui = "*"
color-eyre = "*"

[dev-dependencies]
serde_json = "*"
serde_yaml = "*"
csv = "*"
