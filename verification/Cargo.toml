[package]
name = "liveboat"
version = "0.1.0"
edition = "2021"
publish = false

[dependencies]
anyhow = "*"
bs58 = "*"
chrono = "*"
clap = { version = "*", features = ["derive"] }
handlebars = "*"
libnewsboat = "*"
opml = "*"
rand = "*"
readability-liveboat = "*"
rss = "*"
rusqlite = { version = "*", features = ["bundled"] }
serde = { version = "*", features = ["derive"] }
serde_json = "*"
toml = "*"
url = "*"
