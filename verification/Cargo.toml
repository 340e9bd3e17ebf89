[package]
name = "hyperforge"
version = "0.1.0"
edition = "2021"
publish = false

[dependencies]
serde = { version = "=1.0.229", features = ["derive"] }
serde_json = "=1.0.154"
serde_yaml = "=0.9.34"
toml = "=1.1.8"
toml_edit = "=0.25.17"
dirs = "=7.0.0"
urlencoding = "=2.1.3"
reqwest = { version = "=0.12.28", default-features = false, features = ["json", "rustls-tls"] }
tokio = { version = "=1.54.1", features = ["time", "rt", "macros"] }
chrono = { version = "0.4", features = ["serde"] }
