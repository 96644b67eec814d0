[package]
name = "ferdirust"
version = "0.1.0"
edition = "2021"
publish = false

[dependencies]
cef = "*"
dirs = "*"
serde = { version = "1", features = ["derive"] }
serde_json = "1"
toml = "*"
