[package]
name = "askrs"
version = "0.1.0"
edition = "2021"
publish = false

[dependencies]
byters = "*"
clap = { version = "*", features = ["derive"] }
