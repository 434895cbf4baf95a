[package]
name = "rdump"
version = "0.1.0"
edition = "2021"
publish = false

[dependencies]
regex = "*"
serde = { version = "*", features = ["derive"] }
serde_yaml = "*"
chrono = "*"
users = "*"
clap = { version = "*", features = ["derive"] }
rsure = "*"
