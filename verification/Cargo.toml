[package]
name = "gitstu"
version = "0.1.0"
edition = "2021"
publish = false

[dependencies]
clap = "*"
dialoguer = "*"
serde = { version = "*", features = ["derive"] }
serde_json = "*"
