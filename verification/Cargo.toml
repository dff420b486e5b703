[package]
name = "mdwatch"
version = "0.1.0"
edition = "2021"
publish = false

[dependencies]
chrono = "*"
dirs = "*"
notify = "*"
serde = { version = "*", features = ["derive"] }
serde_json = "*"
