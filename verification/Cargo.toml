[package]
name = "sdisk"
version = "0.1.0"
edition = "2021"
publish = false

[dependencies]
anyhow = "1"
clap = { version = "4", features = ["derive"] }
console = "0.15"
dialoguer = "0.11"
humansize = "2"
indicatif = "0.17"
sysinfo = "0.30"
walkdir = "2"
