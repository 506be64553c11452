[package]
name = "clockeroo"
version = "0.1.0"
edition = "2021"
publish = false

[dependencies]
anyhow = "*"
chrono = "*"
clap = { version = "*", features = ["derive"] }
crossterm = "*"
notify-rust = "*"
ratatui = "*"
rodio = "*"
tokio = { version = "*", features = ["macros", "rt-multi-thread", "time"] }
