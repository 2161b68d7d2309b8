[package]
name = "bof"
version = "0.1.0"
edition = "2021"
publish = false

[dependencies]
bevy = { version = "=0.18.1", default-features = false }
petgraph = "=0.8.3"
ron = "=0.12.3"
serde = { version = "=1.0.229", features = ["derive"] }
