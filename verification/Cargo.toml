[package]
name = "stemcell_tui"
version = "0.1.0"
edition = "2021"
publish = false

[dependencies]
unicode-width = "=0.2.3"
crossterm = "=0.29.0"
serde_json = "=1.0.154"
emojis = "=0.9.1"
