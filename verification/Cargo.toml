[package]
name = "translator"
version = "0.1.0"
edition = "2021"
publish = false

[dependencies]
serde_json = "1"
url = "2"
reqwest = { version = "0.12", default-features = false, features = ["json", "rustls-tls"] }
tokio = { version = "1", features = ["sync", "time", "macros", "rt"] }
log = "0.4"
env_logger = "0.11"
anyhow = "1"
async-trait = "0.1"
winapi = { version = "0.3", features = ["winuser", "windef"] }
