[package]
name = "browser-dispatcher"
version = "0.2.0"
edition = "2021"
publish = false

[dependencies]
anyhow = "1"
clap = { version = "4", features = ["derive"] }
dialoguer = "0.11"
dirs = "6"
globset = "0.4"
humantime = "2"
regex = "1"
serde = { version = "1", features = ["derive"] }
toml = "0.8"
url = "2"
winreg = "*"
