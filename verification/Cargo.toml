[package]
name = "ndl_rand"
version = "0.1.0"
edition = "2021"
publish = false

[dependencies]
rand = "0.7"

[dev-dependencies]
kolmogorov_smirnov = "1"
