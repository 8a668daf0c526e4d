[package]
name = "token_staking"
version = "0.1.0"
edition = "2021"
publish = false

[dependencies]
concordium-cis2 = "*"
concordium-std = "*"
