[package]
name = "jlight"
version = "0.1.0"
edition = "2021"
publish = false

[dependencies]
num_cpus = "1"
fxhash = "0.2"
rustc-hash = "1"
lazy_static = "1"
parking_lot = "0.12"
