[package]
name = "cbordata"
version = "0.6.0"
edition = "2021"
publish = false

[dependencies]
num-bigint = "0.4"
num-traits = "0.2"

[dev-dependencies]
arbitrary = "1"
num-bigint = { version = "0.4", features = ["arbitrary"] }
rand = { version = "0.8", features = ["small_rng"] }
