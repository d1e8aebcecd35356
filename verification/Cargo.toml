[package]
name = "recipe_helper"
version = "0.1.0"
edition = "2021"
publish = false

[dependencies]
sqlite = "*"
log = "*"
env_logger = "*"
