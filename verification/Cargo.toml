[package]
name = "lab"
version = "0.1.0"
edition = "2021"
publish = false

[dependencies]
chrono = "=0.4.45"
dirs = "=7.0.0"
crossterm = "=0.28.1"
ratatui = "=0.29.0"

[dev-dependencies]
tempfile = "3"
