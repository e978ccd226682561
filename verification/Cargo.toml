[package]
name = "warp"
version = "0.1.0"
edition = "2021"
publish = false

[dependencies]
anyhow = "1"
base64 = "0.22"
chrono = { version = "0.4", default-features = false, features = ["clock", "std"] }
dirs = "5"
parking_lot = "0.12"
serde = { version = "1", features = ["derive"] }
serde_json = "1"
schemars = "0.8"
inquire = "0.7"
comfy-table = "7"
walkdir = "2"

[dev-dependencies]
tempfile = "3"
