[package]
name = "sshm"
version = "0.1.13"
edition = "2021"
publish = false

[dependencies]
uuid = { version = "1", features = ["v4"] }
fuzzy-matcher = "0.3"
unicode-width = "0.2"
dirs = "*"
serde = { version = "1", features = ["derive"] }
serde_json = "1"
clap = { version = "4", features = ["derive"] }
clap_complete = "4"
crossterm = "0.29"
ratatui = "0.30"
self-github-update-enhanced = "*"
