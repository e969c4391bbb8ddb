[package]
name = "range_gadget"
version = "0.1.0"
edition = "2021"
publish = false

[dependencies]
halo2_proofs = "=0.1.0"
ff = "0.12"

[dev-dependencies]
num-bigint = "0.4"
