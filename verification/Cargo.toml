[package]
name = "crude"
version = "0.1.0"
edition = "2021"
publish = false

[dependencies]
scraper = "*"
url = "2"
serde = { version = "1", features = ["derive"] }
serde_json = "1"
thirtyfour = "*"
tokio = { version = "1", features = ["rt-multi-thread", "time", "macros"] }
reqwest = { version = "*", features = ["blocking", "json"] }
zip = "*"
dirs = "*"
anyhow = "1"
