[package]
name = "token_factory"
version = "0.1.0"
edition = "2021"
publish = false

[dependencies]
soroban-sdk = "21.0.0"

[dev-dependencies]
proptest = "1"
