[package]
name = "horme"
version = "0.1.0"
edition = "2021"
publish = false

[dependencies]
color-eyre = "*"
crossterm = "*"
hocon = "*"
ratatui = "*"
