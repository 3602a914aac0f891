[package]
name = "ping_store"
version = "0.1.0"
edition = "2021"
publish = false

[dependencies]
fastping-rs = "0.2"
log = "0.4"
pretty_env_logger = "0.4"
