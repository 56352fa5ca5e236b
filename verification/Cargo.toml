[package]
name = "pyfuncs"
version = "0.1.0"
edition = "2021"
publish = false

[dependencies]
cpython = "0.7"
pyo3 = { version = "0.20", features = ["auto-initialize"] }
