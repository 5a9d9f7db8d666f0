[package]
name = "scsock"
version = "0.1.0"
edition = "2021"
publish = false

[dependencies]
clap = { version = "*", features = ["derive"] }
indexmap = { version = "*", features = ["serde"] }
serde = { version = "*", features = ["derive"] }
toml = "*"
