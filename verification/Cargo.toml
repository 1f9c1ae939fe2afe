[package]
name = "ramup"
version = "0.1.0"
edition = "2021"
publish = false

[dependencies]
shellexpand = "*"
anyhow = "1"
clap = "2"
fs_extra = "1"
plist = "1"
serde = { version = "1", features = ["derive"] }
thiserror = "1"
toml = "0.5"
