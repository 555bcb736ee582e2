[package]
name = "membership"
version = "0.1.0"
edition = "2021"
publish = false

[dependencies]
cosmwasm-std = "=2.2.10"
cw-utils = "=2.0.0"
cosmwasm-schema = "=2.2.10"
cw-storage-plus = "=2.0.0"
cw-multi-test = "=2.5.1"
anyhow = "=1.0.104"
thiserror = "=1.0.69"
