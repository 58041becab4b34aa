[package]
name = "salaryman"
version = "0.1.0"
edition = "2021"
publish = false

[dependencies]
bincode = "2"
uuid = { version = "1", features = ["v4", "serde"] }
serde = { version = "1", features = ["derive"] }
toml = "0.8"
clap = { version = "4", features = ["derive"] }
