[package]
name = "secret_raffle"
version = "0.1.0"
edition = "2021"
publish = false

[dependencies]
sha2 = "0.9"
rand_chacha = "0.2"
rand_core = "0.5"
cosmwasm-std = "0.10"
cosmwasm-storage = "0.10"
schemars = "0.7"
serde = { version = "1", default-features = false, features = ["derive"] }
