[package]
name = "adrenaline"
version = "0.1.0"
edition = "2021"
publish = false

[dependencies]
sha2 = "0.10"
hex = "0.4"
anyhow = "1"
clap = { version = "4", features = ["derive"] }
dirs = "*"
env_logger = "*"
log = "0.4"
miette = "*"
rustyline = "*"
thiserror = "*"
