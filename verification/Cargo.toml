[package]
name = "cass"
version = "0.1.0"
edition = "2021"
publish = false

[dependencies]
tantivy = "*"
serde_json = "*"
anyhow = "*"
walkdir = "*"
dirs = "*"
dotenvy = "*"
ratatui = "*"
crossterm = "*"

[dev-dependencies]
tempfile = "*"
