[package]
name = "code_m"
version = "0.1.0"
edition = "2021"
publish = false

[dependencies]
anyhow = "1"
base64 = "0.22"
cpal = "*"
crossterm = "*"
hound = "*"
image = { version = "*", default-features = false, features = ["png", "jpeg", "webp"] }
ratatui = "*"
serde = { version = "1", features = ["derive"] }
symphonia = "*"
thiserror = "*"
toml = "*"
