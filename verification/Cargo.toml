[package]
name = "qvm"
version = "0.1.0"
edition = "2021"
publish = false

[dependencies]
ansiterm = "0.12"
clap = { version = "4", features = ["derive"] }
http_parser = "*"
semver = "1"
