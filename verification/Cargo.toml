[package]
name = "metis_pe"
version = "0.1.0"
edition = "2021"
publish = false

[dependencies]
revm = { version = "26", default-features = false, features = ["std"] }
alloy-consensus = { version = "1", default-features = false, features = ["std"] }
alloy-evm = { version = "0.12", default-features = false, features = ["std", "op"] }
alloy-op-evm = { version = "0.12", default-features = false, features = ["std"] }
eyre = "0.6"
