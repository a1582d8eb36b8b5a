[package]
name = "csfm"
version = "0.1.0"
edition = "2021"
publish = false

[dependencies]
open = "*"
serde = { version = "*", features = ["derive"] }
toml = "*"
