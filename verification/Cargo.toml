[package]
name = "uniswap_v2_router"
version = "0.1.0"
edition = "2021"
publish = false

[dependencies]
casper-types = "=1.5.0"
rand = "=0.8.8"
