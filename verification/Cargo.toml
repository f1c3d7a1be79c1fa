[package]
name = "escritoire"
version = "0.1.0"
edition = "2021"
publish = false

[dependencies]
chrono = "*"
crossterm = "*"
dirs = "*"
glob = "*"
ratatui = "*"
serde = { version = "*", features = ["derive"] }
serde_json = "*"
