[package]
name = "chip8"
version = "0.1.0"
edition = "2021"
publish = false

[dependencies]
anyhow = "1"
crossterm = "0.25"
rand = "0.8"
scopeguard = "1"
tui = "0.19"
