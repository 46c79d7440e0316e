[package]
name = "acir_compiler"
version = "0.1.0"
edition = "2021"
publish = false

[dependencies]
acir = "=0.46.0"
