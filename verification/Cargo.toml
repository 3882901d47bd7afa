[package]
name = "arxiv_bot"
version = "0.1.0"
edition = "2021"
publish = false

[dependencies]
anyhow = "=1.0.104"
dotenvy = "=0.15.7"
reqwest = { version = "=0.12.28", default-features = false, features = ["rustls-tls"] }
serde = { version = "=1.0.229", features = ["derive"] }
serde_json = "=1.0.151"
serde-xml-rs = "=0.8.2"
serenity = "=0.12.5"
tokio = { version = "=1.53.2", features = ["macros", "rt-multi-thread"] }
translators = { version = "=0.2.0", features = ["google", "tokio-async"] }
