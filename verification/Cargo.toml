[package]
name = "news_rss"
version = "0.1.0"
edition = "2021"
publish = false

[dependencies]
nipper = "*"
chrono = "*"
chrono-tz = "*"
rss = "*"
url = "*"
reqwest = { version = "*", default-features = false }
axum = "*"
tokio = { version = "*", features = ["full"] }
futures = "*"
tracing = "*"
tracing-subscriber = { version = "*", features = ["env-filter", "fmt"] }
anyhow = "*"
