[package]
name = "nullslate"
version = "0.1.0"
edition = "2021"
publish = false

[dependencies]
anyhow = "1"
clap = { version = "4", features = ["derive"] }
cliclack = "0.3"
console = "0.15"
dialoguer = "0.11"
indicatif = "0.17"
rand = "0.8"
regex = "1"
serde_json = "1"
tempfile = "3"
walkdir = "2"
