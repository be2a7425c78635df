[package]
name = "betting_contract"
version = "0.1.0"
edition = "2021"
publish = false

[dependencies]
soroban-sdk = "23.0.1"
ed25519-dalek = "2"
