[package]
name = "sysworxx-io-py"
version = "0.1.0"
edition = "2021"
publish = false

[dependencies]
indexmap = { version = "=2.14.2", features = ["serde"] }
once_cell = "=1.21.4"
pyo3 = "=0.29.3"
pyo3-stub-gen = "=0.23.2"
pythonize = "=0.29.0"
serde = { version = "=1.0.229", features = ["derive"] }
