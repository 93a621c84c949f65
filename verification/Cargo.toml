[package]
name = "threat_modeling"
version = "0.1.0"
edition = "2021"
publish = false

[dependencies]
syn = { version = "2", features = ["full", "visit"] }
quote = "1"
serde_json = "1"
