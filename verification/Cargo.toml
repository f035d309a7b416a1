[package]
name = "audiostar"
version = "0.1.0"
edition = "2021"
publish = false

[dependencies]
serde_json = "1"
rusqlite = { version = "*", features = ["bundled"] }
dirs-next = "2"
rodio = "0.21"
