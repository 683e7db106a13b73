[package]
name = "ec_accumulator"
version = "0.1.0"
edition = "2021"
publish = false

[dependencies]
ark-bn254 = "*"
ark-ec = "*"
ark-ff = "*"
ark-serialize = "*"
tiny-keccak = { version = "*", features = ["keccak"] }
