[package]
name = "usd_runner"
version = "0.1.0"
edition = "2021"
publish = false

[dependencies]
anyhow = "1"
serialport = { version = "3.3", default-features = false }
xmas-elf = "0.7"
