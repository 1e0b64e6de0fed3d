[package]
name = "powchain"
version = "0.1.0"
edition = "2021"
publish = false

[dependencies]
chrono = "0.4"
ed25519-dalek = "1.0.1"
hex = "0.4"
rand = "0.7"
sha2 = "0.10"
