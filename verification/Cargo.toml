[package]
name = "houston"
version = "0.1.0"
edition = "2021"
publish = false

[dependencies]
subprocess = "*"
tempfile = "*"
clap = { version = "*", features = ["derive"] }
colored = "*"
dirs = "*"
serde = { version = "*", features = ["derive"] }
serde_yaml = "*"
openai_api_rust = "*"
