[package]
name = "lib_simulation"
version = "0.1.0"
edition = "2021"
publish = false

[dependencies]
rand = "0.8"
nalgebra = { version = "0.33", features = ["rand"] }
ferris-says = "0.2"
