[package]
name = "rust_demos"
version = "0.1.0"
edition = "2021"
publish = false

[dependencies]
rand = "=0.8.8"
sqlparser = "=0.63.0"
futures = "=0.3.34"
libc = "=0.2.191"
quote = "=1.0.47"
