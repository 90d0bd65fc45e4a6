[package]
name = "achievements"
version = "0.1.0"
edition = "2021"
publish = false

[dependencies]
time = { version = "*", features = ["formatting", "parsing", "serde", "serde-well-known"] }
clap = { version = "*", features = ["derive"] }
homedir = "*"
serde = { version = "*", features = ["derive"] }
serde_json = "*"
