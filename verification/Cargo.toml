[package]
name = "git_history"
version = "0.1.0"
edition = "2021"
publish = false

[dependencies]
log = "0.3"
env_logger = "0.4"
rustbox = "*"
