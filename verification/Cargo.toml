[package]
name = "groth16_verifier"
version = "0.1.0"
edition = "2021"
publish = false

[dependencies]
substrate-bn = "*"
