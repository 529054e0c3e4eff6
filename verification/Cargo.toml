[package]
name = "herschel"
version = "0.1.0"
edition = "2021"
publish = false

[dependencies]
pnet = "*"
log = "*"
env_logger = "*"
thiserror = "*"
