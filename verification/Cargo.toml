[package]
name = "verbium"
version = "0.1.0"
edition = "2021"
publish = false

[dependencies]
unicode-width = "*"
chrono = "*"
portable-pty = "*"
parking_lot = "*"
anyhow = "*"
serde = { version = "*", features = ["derive"] }
toml = "*"

[dev-dependencies]
vte = "*"
