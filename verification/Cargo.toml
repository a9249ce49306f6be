[package]
name = "log_viewer"
version = "0.1.0"
edition = "2021"
publish = false

[dependencies]
crossterm = "0.25"
notify = "6"
tui = "0.19"
walkdir = "2"

[dev-dependencies]
regex = "1"
