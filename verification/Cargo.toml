[package]
name = "cray"
version = "0.1.0"
edition = "2021"
publish = false

[dependencies]
cgmath = "=0.18.0"
rand = "0.3.23"
rustc-serialize = "=0.3.25"
time = "0.1.45"
toml = "0.1.30"
