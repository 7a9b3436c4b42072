[package]
name = "arrowc"
version = "0.1.0"
edition = "2021"
publish = false

[dependencies]
heck = "0.5"
serde = { version = "1", features = ["derive"] }
serde_json = "1"
serde_yaml = "0.9"
clap = { version = "4", features = ["derive"] }
thiserror = "1"
