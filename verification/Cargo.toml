[package]
name = "two_round_fully_adaptive"
version = "0.1.0"
edition = "2021"
publish = false

[dependencies]
bulletproofs = "*"
curve25519-dalek = { version = "4", features = ["rand_core", "digest"] }
merlin = "3"
rand = "0.8"
rand_chacha = "0.3"
rayon = "1"
sha2 = "0.10"
