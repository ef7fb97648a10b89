[package]
name = "kv_editor"
version = "0.1.0"
edition = "2021"
publish = false

[dependencies]
ratatui = "0.26"
crossterm = "0.27"
serde_json = "1"
color-eyre = "0.6"
