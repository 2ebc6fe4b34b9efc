[package]
name = "zelp"
version = "0.1.0"
edition = "2021"
publish = false

[dependencies]
clap = { version = "4", features = ["derive"] }
log = "0.4"
ron = "0.8"
serde = { version = "1", features = ["derive"] }
simplelog = "0.12"
