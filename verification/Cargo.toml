[package]
name = "evm_state"
version = "0.1.0"
edition = "2021"
publish = false

[dependencies]
ethereum-types = { version = "0.14", default-features = false, features = ["std"] }
