[package]
name = "wake-core"
version = "0.1.0"
edition = "2021"
publish = false

[dependencies]
anyhow = "1"
rusqlite = "0.32"
serde_json = "1"
