[package]
name = "crabcrust"
version = "0.1.0"
edition = "2021"
publish = false

[dependencies]
image = "*"
flate2 = "*"
crossterm = "*"
ratatui = "*"
clap = { version = "*", features = ["derive"] }
