[package]
name = "rmap"
version = "0.1.0"
edition = "2021"
publish = false

[dependencies]
cidr = "*"
clap = "*"
ipnetwork = "*"
pyo3 = "*"

[dev-dependencies]
regex = "*"
