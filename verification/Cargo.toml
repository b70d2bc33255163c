[package]
name = "game_engines"
version = "0.1.0"
edition = "2021"
publish = false

[dependencies]
itertools = "0.10"
ndarray = "0.15"
numpy = "0.18"
pyo3 = "0.18"
