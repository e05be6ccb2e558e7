[package]
name = "yk"
version = "0.1.0"
edition = "2021"
publish = false

[dependencies]
clap = { version = "4", features = ["derive"] }
clipboard = "0.5"
serde = { version = "1", features = ["derive"] }
serde_json = "1"
