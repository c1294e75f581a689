[package]
name = "z3_encoder"
version = "0.1.0"
edition = "2021"
publish = false

[dependencies]
z3-sys = "*"
