[package]
name = "scrape_core"
version = "0.1.0"
edition = "2021"
publish = false

[dependencies]
urlencoding = "=2.1.3"
scraper = "=0.27.0"
serde = { version = "=1.0.229", features = ["derive"] }
serde_json = "=1.0.151"
tokio = { version = "=1.53.2", features = ["rt-multi-thread", "macros", "signal", "time"] }
tokio-util = { version = "=0.7.19", features = ["compat"] }
futures = "=0.3.34"
reqwest = { version = "=0.13.5", default-features = false }
chromiumoxide = "=0.9.1"
env_logger = "=0.11.11"
log = "=0.4.34"
kurosabi = "=0.6.20"
