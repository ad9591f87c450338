[package]
name = "ummerse"
version = "0.1.0"
edition = "2021"
publish = false

[dependencies]
serde = { version = "=1.0.229", features = ["derive"] }
serde_json = "=1.0.154"
thiserror = "=2.0.21"
uuid = { version = "=1.29.0", features = ["v4"] }
toml = "=0.8.23"
glam = { version = "=0.29.3", features = ["serde"] }
bytemuck = { version = "=1.25.2", features = ["derive"] }
walkdir = "2"
