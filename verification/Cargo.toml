[package]
name = "vk_multitool"
version = "0.1.0"
edition = "2021"
publish = false

[dependencies]
clap = "2"
regex = "1"
reqwest = { version = "0.9", default-features = false }
serde_json = "1"
termcolor = "1"
try_from = "0.3"
yaml-rust = "0.4"
