[package]
name = "time_period_checker"
version = "0.1.0"
edition = "2021"
publish = false

[dependencies]
serde_yaml = "0.9"
chrono = "0.4"
clap = { version = "4.5", features = ["derive"] }
dirs = "5.0"
