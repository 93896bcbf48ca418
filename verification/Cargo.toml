[package]
name = "outcome_manager"
version = "0.1.0"
edition = "2021"
publish = false

[dependencies]
soroban-env-host = "=29.0.1"
soroban-sdk = "=29.0.1"

[dev-dependencies]
ed25519-dalek = "=2.2.0"
