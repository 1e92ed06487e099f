[package]
name = "ft_staking_contract"
version = "0.1.0"
edition = "2021"
publish = false

[dependencies]
near-sdk = { version = "=5.30.0", default-features = false, features = ["non-contract-usage"] }
