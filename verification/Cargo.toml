[package]
name = "sandbox"
version = "0.1.0"
edition = "2021"
publish = false

[dependencies]
hashbrown = "=0.14.5"
bevy = { version = "=0.11.3", default-features = false }
ron = "0.8"
serde = { version = "1", features = ["derive"] }
anyhow = "1"
