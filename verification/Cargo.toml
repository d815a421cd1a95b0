[package]
name = "gigguard"
version = "0.1.0"
edition = "2021"
publish = false

[dependencies]
soroban-sdk = { version = "29", features = ["alloc"] }

[dev-dependencies]
soroban-sdk = { version = "29", features = ["alloc", "testutils"] }
