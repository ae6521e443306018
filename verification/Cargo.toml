[package]
name = "test_verify"
version = "0.1.0"
edition = "2021"
publish = false

[dependencies]
ed25519-compact = { version = "*", default-features = false }
parity-scale-codec = { version = "*", features = ["derive"] }
