[package]
name = "imgsize"
version = "0.1.0"
edition = "2021"
publish = false

[dependencies]
byteorder = "1"
pyo3 = "0.22"
