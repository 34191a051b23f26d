[package]
name = "gitclock"
version = "0.1.0"
edition = "2021"
publish = false

[dependencies]
anyhow = "1"
chrono = "0.4"
chrono-tz = "*"
clap = { version = "4", features = ["derive"] }
confy = "*"
rand = "0.8"
serde = { version = "1", features = ["derive"] }
