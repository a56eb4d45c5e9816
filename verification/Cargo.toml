[package]
name = "autoagents"
version = "0.1.0"
edition = "2021"
publish = false

[dependencies]
async-trait = "=0.1.92"
base64 = "=0.22.1"
env_logger = "=0.11.11"
rustc-hash = "=1.1.0"
tiktoken-rs = "=0.7.0"
