[package]
name = "atlas"
version = "0.1.0"
edition = "2021"
publish = false

[dev-dependencies]
wasmtime = "=48.0.5"
