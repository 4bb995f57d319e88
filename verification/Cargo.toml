[package]
name = "catalog_notify"
version = "0.1.0"
edition = "2021"
publish = false

[dependencies]
urlencoding = "=2.1.3"
scraper = "=0.27.0"
teloxide = "=0.17.0"
takecell = "=0.1.1"
tokio = { version = "=1.53.2", features = ["rt-multi-thread", "macros", "time", "sync"] }
reqwest = { version = "=0.12.28", default-features = false, features = ["json"] }
serde = { version = "=1.0.229", features = ["derive"] }
log = "=0.4.34"
pretty_env_logger = "=0.5.0"
