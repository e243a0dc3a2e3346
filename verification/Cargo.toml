[package]
name = "animer"
version = "0.1.0"
edition = "2021"
publish = false

[dependencies]
serde = { version = "1", features = ["derive"] }
serde_json = "1"
serde_yaml = "0.9"
reqwest = { version = "0.11", default-features = false, features = ["blocking", "json", "rustls-tls"] }
crossterm = "0.25"
tui = { version = "0.19", default-features = false, features = ["crossterm"] }
clap = { version = "4", features = ["cargo"] }
