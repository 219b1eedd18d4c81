[package]
name = "mersey_host"
version = "0.1.0"
edition = "2021"
publish = false

[dependencies]
mozjs = "=0.26.14"
string_cache = "=0.11.0"
stylo_atoms = "=0.23.0"
