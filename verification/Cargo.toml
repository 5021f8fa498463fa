[package]
name = "indonesian_media_crawler"
version = "0.1.0"
edition = "2021"
publish = false

[dependencies]
chrono = "0.4"
regex = "1"
url = "2"
itertools = "0.10"
scraper = "0.14"
reqwest = { version = "0.11", default-features = false }
sqlx = { version = "0.6", default-features = false, features = ["runtime-tokio-rustls", "sqlite", "chrono", "macros"] }
tokio = { version = "1", features = ["full"] }
thiserror = "1"
lazy_static = "1"
tracing = "0.1"
