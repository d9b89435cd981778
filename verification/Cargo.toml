[package]
name = "expire"
version = "0.1.0"
edition = "2021"

[dependencies]
chrono = "0.4"
clap = { version = "4", features = ["derive"] }
colored = "2"
dirs = "5"
serde_json = { version = "1", features = ["preserve_order"] }
shellexpand = "3"
