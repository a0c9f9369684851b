[package]
name = "engine_core"
version = "0.1.0"
edition = "2021"
publish = false

[dependencies]
once_cell = "1"
pyo3 = "*"
rayon = "1"
serde = { version = "1", features = ["derive"] }
toml = "*"
