[package]
name = "spidey"
version = "0.1.0"
edition = "2021"
publish = false

[dependencies]
clap = "*"
env_logger = "*"
log = "*"
nix = { version = "*", features = ["process"] }
