[package]
name = "my_first_blockchain"
version = "0.1.0"
edition = "2021"
publish = false

[dependencies]
sha2 = "0.10"
sha3 = "0.10"
secp256k1 = { version = "0.28", features = ["recovery", "rand-std"] }
serde = { version = "1", features = ["derive"] }
serde_json = "1"
num_cpus = "1"
