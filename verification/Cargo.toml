[package]
name = "euclid"
version = "0.1.0"
edition = "2021"
publish = false

[dependencies]
cosmwasm-std = "2"
cosmwasm-schema = "2"
