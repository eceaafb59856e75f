[package]
name = "kzg_verifier"
version = "0.1.0"
edition = "2021"
publish = false

[dependencies]
substrate-bn = "0.6"
sha2 = "0.10"
