[package]
name = "spaced"
version = "0.1.0"
edition = "2021"
publish = false

[dependencies]
chrono = "0.4"
clap = "3"
crossterm = "0.23"
lazy_static = "1"
regex = "1"
rusqlite = "0.28"
serde_json = "1"
serde_yaml = "0.9"
termion = "1"
textwrap = "0.15"
walkdir = "2"
zip = { version = "0.6", default-features = false, features = ["deflate"] }
