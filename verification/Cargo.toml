[package]
name = "neovide"
version = "0.1.0"
edition = "2021"
publish = false

[dependencies]
rmpv = "=0.4.7"
rmp = "=0.8.9"
neovim-lib = "=0.6.1"
env_logger = "=0.7.1"
