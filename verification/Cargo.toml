[package]
name = "skillfile"
version = "0.1.0"
edition = "2021"
publish = false

[dependencies]
serde = { version = "1", features = ["derive"] }
serde_json = "1"
ratatui = { version = "*", default-features = false }
ureq = "2"
