[package]
name = "misfit_core"
version = "0.1.0"
edition = "2021"
publish = false

[dependencies]
bitcoin = "=0.32.102"
secp256k1 = { version = "=0.29.1", features = ["rand-std", "global-context"] }
hex = "=0.4.3"
clap = { version = "=4.6.7", features = ["derive"] }
serde_json = "=1.0.151"
