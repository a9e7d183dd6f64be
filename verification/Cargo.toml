[package]
name = "optivanity"
version = "0.1.0"
edition = "2021"
publish = false

[dependencies]
ed25519-dalek = { version = "2", features = ["rand_core"] }
hex = "0.4"
num = "0.4"
rand = "0.8"
sha3 = "0.10"
anyhow = "1"
clap = { version = "4", features = ["derive"] }
indicatif = "0.17"
