[package]
name = "file_converter"
version = "0.1.0"
edition = "2021"
publish = false

[dependencies]
clap = { version = "4", features = ["derive"] }
csv = "1"
serde_json = "1"
serde_yaml = "0.9"
