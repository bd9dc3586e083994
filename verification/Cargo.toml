[package]
name = "abbey"
version = "0.1.0"
edition = "2021"
publish = false

[dependencies]
chrono = { version = "=0.4.45", features = ["serde"] }
uuid = { version = "=1.29.0", features = ["v4"] }
serde = { version = "=1.0.229", features = ["derive"] }
serde_json = "=1.0.154"
directories = "=5.0.1"
log = "=0.4.34"
env_logger = "=0.11.11"
pulldown-cmark = "=0.10.3"
reqwest = { version = "0.12", default-features = false, features = ["json", "blocking"] }
