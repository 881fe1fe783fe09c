[package]
name = "qrosity"
version = "0.1.0"
edition = "2021"
publish = false

[dependencies]
regex = "*"
urlencoding = "*"
clap = { version = "*", features = ["derive"] }
chrono = "*"
serde = { version = "*", features = ["derive"] }
serde_json = "*"
rayon = "*"
