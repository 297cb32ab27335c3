[package]
name = "accensa_contracts"
version = "0.3.0"
edition = "2021"
publish = false

[dependencies]
crypto-bigint = "=0.5.5"
sha2 = "=0.10.9"
soroban-sdk = { version = "=27.0.6", features = ["alloc", "hazmat-address"] }
