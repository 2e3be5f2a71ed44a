[package]
name = "crackmes"
version = "0.1.0"
edition = "2021"
publish = false

[dependencies]
scraper = "*"
fuzzy-matcher = "*"
anyhow = "1"
thiserror = "1"
strum = { version = "0.21", features = ["derive"] }
structopt = "0.3"
tokio = { version = "1", features = ["macros", "rt-multi-thread"] }
reqwest = { version = "0.11", features = ["cookies"] }
futures-util = "0.3"
crossterm = { version = "0.20", features = ["event-stream"] }
tui = { version = "0.16", default-features = false, features = ["crossterm"] }
zip = { version = "0.5", default-features = false, features = ["deflate"] }
