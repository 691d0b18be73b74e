[package]
name = "mirin"
version = "0.1.0"
edition = "2021"
publish = false

[dependencies]
toml = "*"
actix-web = "*"
console = "*"
env_logger = "*"
notify = "*"
walkdir = "*"
