[package]
name = "latexlings"
version = "0.1.0"
edition = "2021"
publish = false

[dependencies]
anyhow = "1"
crossterm = "0.28"
include_dir = "0.7"
ratatui = "0.29"
regex = "1"
serde = { version = "1", features = ["derive"] }
shlex = "1"
toml = "0.8"
