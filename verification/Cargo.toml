[package]
name = "contract_harness"
version = "0.1.0"
edition = "2021"
publish = false

[dependencies]
ethers = { version = "2", default-features = false }
evm = "0.41"
evmodin = "*"
eyre = "0.6"
hex = "0.4"
tokio = { version = "1", features = ["macros", "rt-multi-thread"] }
