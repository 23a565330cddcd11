[package]
name = "solana-bpf-token"
version = "0.1.0"
edition = "2021"
publish = false

[dependencies]
num-derive = "0.3"
num-traits = "0.2"
solana-sdk = { version = "0.21", default-features = false, features = ["program"] }
solana-sdk-bpf-test = "*"
