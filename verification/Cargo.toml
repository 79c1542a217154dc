[package]
name = "romhash"
version = "0.1.0"
edition = "2021"
publish = false

[dependencies]
hex = "*"
pyo3 = "*"
sha2 = "*"
