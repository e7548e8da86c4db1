[package]
name = "portal_watch"
version = "0.1.0"
edition = "2021"
publish = false

[dependencies]
base64 = "0.22"
chrono = "0.4"
config = "0.14"
log = "0.4"
notify-rust = "4"
pretty_env_logger = "0.5"
rand = "0.8"
reqwest = { version = "0.12", default-features = false, features = ["cookies", "json"] }
rsa = "0.9"
scraper = "*"
serde = { version = "1", features = ["derive"] }
serde_json = "1"
thiserror = "*"
tokio = { version = "1", features = ["macros", "rt-multi-thread"] }
