[package]
name = "logm"
version = "0.1.0"
edition = "2021"
publish = false

[dependencies]
num-complex = "=0.4.6"
num-traits = "=0.2.19"
nalgebra = "=0.35.0"
