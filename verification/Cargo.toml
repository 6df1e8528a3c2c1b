[package]
name = "stark_prover"
version = "0.1.0"
edition = "2021"
publish = false

[dependencies]
lambdaworks-math = "=0.13.0"
lambdaworks-crypto = "=0.13.0"
