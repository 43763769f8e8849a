[package]
name = "relgen"
version = "0.1.0"
edition = "2021"
publish = false

[dependencies]
anyhow = "1"
clap = { version = "4", features = ["derive"] }
colored = "2"
config = "0.13"
derivative = "2"
dotenvy = "0.15"
git2 = "0.18"
regex = "1"
