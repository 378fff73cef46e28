[package]
name = "uv_ffi"
version = "0.1.0"
edition = "2021"
publish = false

[dependencies]
anyhow = "=1.0.104"
clap = { version = "=4.6.7", features = ["derive"] }
once_cell = "=1.21.4"
pyo3 = "=0.30.1"
tokio = { version = "=1.54.1", features = ["rt"] }
uv-normalize = "=0.0.60"
uv-pep440 = "=0.0.60"
