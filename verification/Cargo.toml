[package]
name = "vsr_rs"
version = "0.1.0"
edition = "2021"
publish = false

[dependencies]
crossbeam-channel = "0.5"
log = "0.4"
parking_lot = "0.12"

[dev-dependencies]
rand = "0.8"
rand_chacha = "0.3"
