[package]
name = "gol"
version = "0.1.0"
edition = "2021"
publish = false

[dependencies]
fixedbitset = "0.4"
rand = "0.8"
crossterm = "0.25"
clap = { version = "4", features = ["derive"] }
env_logger = "0.10"
