[package]
name = "simple_rss"
version = "0.1.0"
edition = "2021"
publish = false

[dependencies]
anyhow = "*"
chrono = "*"
clap = { version = "*", features = ["derive"] }
colored = "*"
crossterm = "*"
ego-tree = "*"
feed-rs = "*"
futures = "*"
ratatui = "*"
reqwest = { version = "*", default-features = false }
scraper = "*"
serde = { version = "*", features = ["derive"] }
serde_json = "*"
textwrap = "*"
tokio = { version = "*", features = ["macros", "rt-multi-thread", "sync", "time"] }
unicode-width = "*"
webbrowser = "*"
