[package]
name = "ff_ext"
version = "0.1.0"
edition = "2021"
publish = false

[dependencies]
p3-field = "=0.3.0"
p3-goldilocks = "=0.3.0"
p3-poseidon2 = "=0.3.0"
p3-symmetric = "=0.3.0"
p3-challenger = "=0.3.0"
p3-merkle-tree = "=0.3.0"
