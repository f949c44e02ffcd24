[package]
name = "gph"
version = "0.1.0"
edition = "2021"
publish = false

[dependencies]
chrono = "*"
dirs = "*"
clap = { version = "*", features = ["derive"] }

[dev-dependencies]
toml = "*"
