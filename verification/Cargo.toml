[package]
name = "quad"
version = "0.1.0"
edition = "2021"
publish = false

[dependencies]
ndarray = "0.15"
rayon = "1"
pyo3 = "0.20"
