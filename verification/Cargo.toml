[package]
name = "zk_mint_core"
version = "0.1.0"
edition = "2021"
publish = false

[dependencies]
revm-precompile = { version = "*", default-features = false }
substrate-bn = "*"
