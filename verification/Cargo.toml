[package]
name = "poclimon"
version = "0.1.0"
edition = "2021"
publish = false

[dependencies]
rand = "0.8"
toml = "0.8"
serde = { version = "1", features = ["derive"] }
thiserror = "1"
anyhow = "1"
clap = { version = "4", features = ["derive"] }
crossterm = "0.28"
ratatui = "0.29"
ratatui-image = "8"
image = { version = "0.25", default-features = false, features = ["png"] }
