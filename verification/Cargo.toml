[package]
name = "dagentic"
version = "0.1.0"
edition = "2021"
publish = false

[dependencies]
anyhow = "=1.0.104"
clap = { version = "=4.6.7", features = ["derive"] }
clapfig = "=0.15.0"
confique = "=0.4.0"
include_dir = "=0.7.4"
serde = { version = "=1.0.229", features = ["derive"] }
serde_json = "1"
