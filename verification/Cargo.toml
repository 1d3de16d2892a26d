[package]
name = "zapp"
version = "0.1.0"
edition = "2021"
publish = false

[dependencies]
reqwest = { version = "0.12", default-features = false, features = ["blocking", "json", "rustls-tls"] }
serde = { version = "1", features = ["derive"] }
thiserror = "2"
nusb = "*"
futures-lite = "2"
clap = { version = "4", features = ["derive"] }
anyhow = "1"
indicatif = "0.17"
env_logger = "0.11"
