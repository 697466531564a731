[package]
name = "talkshows"
version = "0.1.0"
edition = "2021"
publish = false

[dependencies]
scraper = "0.20"
regex = "1"
chrono = { version = "0.4", default-features = false, features = ["std"] }
tokio = { version = "1", features = ["macros", "rt-multi-thread"] }
reqwest = { version = "0.12", default-features = false, features = ["rustls-tls"] }
sqlx = { version = "0.8", default-features = false, features = ["runtime-tokio", "sqlite"] }
