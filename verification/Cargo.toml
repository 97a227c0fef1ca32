[package]
name = "log_monitor"
version = "0.1.0"
edition = "2021"
publish = false

[dependencies]
chrono = "0.4"
crossterm = "0.27"
rand = "0.8"
ratatui = "0.23"
