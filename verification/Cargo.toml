[package]
name = "state_validator"
version = "0.1.0"
edition = "2021"
publish = false

[dependencies]
blake2b-ref = "*"
libsecp256k1 = "*"

[dev-dependencies]
sparse-merkle-tree = "*"
