[package]
name = "apkdl"
version = "0.1.0"
edition = "2021"
publish = false

[dependencies]
regex = "1"
scraper = "0.20"
reqwest = { version = "0.12", default-features = false, features = ["blocking", "rustls-tls"] }
clap = "4"
crossterm = "0.28"
ratatui = "0.29"
indicatif = "0.17"
serde = { version = "1", features = ["derive"] }
serde_json = "1"
toml = "0.8"
tempfile = "3"
zip = { version = "2", default-features = false, features = ["deflate"] }
