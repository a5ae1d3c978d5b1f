[package]
name = "phrase_recovery"
version = "0.1.0"
edition = "2021"
publish = false

[dependencies]
anyhow = "=1.0.104"
bip39 = { version = "=2.2.2", features = ["all-languages"] }
bitcoin = "=0.32.102"
clap = { version = "=4.6.7", features = ["derive"] }
itertools = "=0.13.0"
