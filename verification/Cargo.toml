[package]
name = "rgb_contract_op"
version = "0.1.0"
edition = "2021"
publish = false

[dependencies]
aluvm = "=0.11.0"
amplify = "=4.7.1"
bitcoin = "=0.32.102"
secp256k1 = { version = "=0.29.1", features = ["global-context"] }
