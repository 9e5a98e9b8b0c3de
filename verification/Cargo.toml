[package]
name = "prdoc"
version = "0.1.0"
edition = "2021"
publish = false

[dependencies]
clap = { version = "*", features = ["derive"] }
color-eyre = "*"
env_logger = "*"
exitcode = "*"
log = "*"
project-root = "*"
