[package]
name = "f06"
version = "0.1.0"
edition = "2021"
publish = false

[dependencies]
convert_case = "*"
clap = { version = "*", features = ["derive"] }
serde = { version = "*", features = ["derive"] }
csv = "*"
toml = "*"
log = "*"
env_logger = "*"
