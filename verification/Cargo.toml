[package]
name = "goldilocks_stark"
version = "0.1.0"
edition = "2021"
publish = false

[dependencies]
itertools = "=0.11.0"
num = "=0.4.3"
plonky2 = "=0.2.2"
rand = "=0.8.8"
serde = { version = "=1.0.229", features = ["derive"] }
