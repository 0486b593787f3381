[package]
name = "story"
version = "0.1.0"
edition = "2021"
publish = false

[dependencies]
anyhow = "1"
async-std = { version = "1", features = ["attributes"] }
base64 = "0.13"
clap = { version = "3", features = ["derive"] }
colored_json = "3"
ctrlc = "3"
dialoguer = "0.10"
directories-next = "2"
edit = "0.1"
env_logger = "0.10"
git2 = "0.18"
indicatif = "0.17"
serde = { version = "1", features = ["derive"] }
serde_json = "1"
surf = { version = "2", default-features = false, features = ["h1-client-rustls"] }
