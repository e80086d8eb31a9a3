[package]
name = "trench"
version = "0.1.0"
edition = "2021"
publish = false

[dependencies]
quick-xml = "0.37"
regex = "1"
chrono = { version = "0.4", default-features = false, features = ["clock", "std"] }
serde = { version = "1", features = ["derive"] }
serde_json = "1"
reqwest = { version = "0.12", default-features = false, features = ["blocking", "json", "rustls-tls"] }
syntect = { version = "5", default-features = false, features = ["default-fancy"] }
dirs = "5"
log = "0.4"
env_logger = "0.11"
