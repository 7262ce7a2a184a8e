[package]
name = "mdvi"
version = "0.1.0"
edition = "2021"
publish = false

[dependencies]
pulldown-cmark = "*"
anyhow = "*"
clap = { version = "*", features = ["derive"] }
ratatui = "*"
