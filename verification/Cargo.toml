[package]
name = "cryptan"
version = "0.1.0"
edition = "2021"
publish = false

[dependencies]
clap = { version = "4", features = ["derive"] }
colored = "2"
pyo3 = { version = "0.22", features = ["auto-initialize"] }
