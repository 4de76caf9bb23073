[package]
name = "ibx"
version = "0.1.0"
edition = "2021"
publish = false

[dependencies]
log = "0.4"
crossbeam-channel = "0.5"
pyo3 = "0.23"
