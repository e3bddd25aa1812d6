[package]
name = "backloggd_feed"
version = "0.1.0"
edition = "2021"
publish = false

[dependencies]
scraper = "*"
html-escape = "*"
reqwest = { version = "*", default-features = false }
serenity = "*"
tokio = { version = "*", features = ["macros", "rt-multi-thread", "time"] }
serde = { version = "*", features = ["derive"] }
serde_json = "*"
dotenv = "*"
