[package]
name = "staking_receiver"
version = "0.1.0"
edition = "2021"
publish = false

[dependencies]
sha3 = "*"

[dev-dependencies]
parity-scale-codec = "*"
