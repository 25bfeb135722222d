[package]
name = "mcc"
version = "0.1.0"
edition = "2021"
publish = false

[dependencies]
serde_json = "*"
flate2 = "*"
chrono = "*"
hostname = "*"
anyhow = "*"
crossterm = "*"
ratatui = "*"
