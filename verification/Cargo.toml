[package]
name = "durf"
version = "0.1.0"
edition = "2021"
publish = false

[dependencies]
scraper = "*"
ego-tree = "*"
ratatui = "*"
crossterm = "*"
serde = { version = "*", features = ["derive"] }
