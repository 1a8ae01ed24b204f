[package]
name = "gdsfx"
version = "0.1.0"
edition = "2021"
publish = false

[dependencies]
anyhow = "1"
pretty-bytes = "*"
serde = { version = "1", features = ["derive"] }
serde_json = "1"
strum = { version = "*", features = ["derive"] }
