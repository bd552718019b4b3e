[package]
name = "plonk"
version = "0.1.0"
edition = "2021"
publish = false

[dependencies]
ark-bls12-381 = "=0.3.0"
ark-ed-on-bls12-381 = "=0.3.0"
ark-ec = "=0.3.0"
ark-ff = "=0.3.0"
ark-poly = "=0.3.0"
ark-poly-commit = "=0.3.0"
ark-serialize = "=0.3.0"
rand_core = { version = "=0.6.4", features = ["getrandom"] }
