[package]
name = "ringsig"
version = "0.1.0"
edition = "2021"
publish = false

[dependencies]
curve25519-dalek = "4"
sha2 = "0.10"
hex = "0.4"
rand_core = { version = "0.6", features = ["getrandom"] }
clap = { version = "4", features = ["derive"] }
