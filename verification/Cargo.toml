[package]
name = "tvibe"
version = "0.1.0"
edition = "2021"
publish = false

[dependencies]
strsim = "*"
rand = "*"
serde = { version = "*", features = ["derive"] }
toml = "*"
clap = { version = "*", features = ["derive"] }
