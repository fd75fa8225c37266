[package]
name = "random_bitfield"
version = "0.1.0"
edition = "2021"
publish = false

[dependencies]
smallvec = "1"
rand = "*"
ssz_types = "*"

[dev-dependencies]
rand_xorshift = "*"
