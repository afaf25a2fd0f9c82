[package]
name = "tobi"
version = "0.1.0"
edition = "2021"
publish = false

[dependencies]
anyhow = "1"
clap = { version = "4", features = ["derive"] }
crossterm = "*"
ratatui = "*"
reqwest = { version = "*", features = ["blocking"] }
serde = { version = "1", features = ["derive"] }
serde_json = "1"
sha2 = "*"
hex = "*"
xz2 = "*"
zstd = "*"
flate2 = "*"
qrcode = "*"
