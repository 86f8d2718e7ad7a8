[package]
name = "tui_games"
version = "0.1.0"
edition = "2021"
publish = false

[dependencies]
tui-dispatch = "=0.7.1"
sha2 = "=0.10.9"
hex = "=0.4.3"
base64 = "=0.22.1"
serde = { version = "=1.0.229", features = ["derive"] }
serde_json = "=1.0.154"
serde_yaml = "=0.9.34"
ron = "=0.8.1"
ratatui = "=0.30.2"
crossterm = "=0.29.0"
clap = { version = "=4.6.7", features = ["derive"] }
tokio = { version = "=1.54.1", features = ["full"] }
thiserror = "=2.0.21"
image = { version = "0.25", default-features = false, features = ["png", "gif"] }
schemars = "0.8"
dirs-next = "2"
futures-util = "0.3"
async-trait = "0.1"
reqwest = { version = "0.12", default-features = false, features = ["json", "rustls-tls"] }
