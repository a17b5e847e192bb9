[package]
name = "chip8"
version = "0.1.0"
edition = "2021"
publish = false

[dependencies]
rand = "0.8"
log = "0.4"
env_logger = "*"
clap = { version = "4", features = ["derive"] }
minifb = "*"
rodio = "*"
