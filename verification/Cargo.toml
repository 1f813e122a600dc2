[package]
name = "b58uuid"
version = "0.1.0"
edition = "2021"
publish = false

[dependencies]
anyhow = "1"
clap = { version = "4", features = ["derive"] }
colored = "2"
uuid = { version = "1", features = ["v4"] }
