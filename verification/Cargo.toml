[package]
name = "arrow_jmespath"
version = "0.1.0"
edition = "2021"
publish = false

[dependencies]
arrow = "*"
serde_json = "*"
