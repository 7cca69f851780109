[package]
name = "cmdqueue"
version = "0.1.0"
edition = "2021"
publish = false

[dependencies]
anyhow = "*"
clap = { version = "*", features = ["derive"] }
tokio = { version = "*", features = ["rt", "fs", "io-util", "process", "sync"] }
