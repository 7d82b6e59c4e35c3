[package]
name = "anchovy"
version = "0.1.0"
edition = "2021"
publish = false

[dependencies]
blake2 = "0.10"
bs58 = "0.5"
