[package]
name = "strata"
version = "0.1.0"
edition = "2021"
publish = false

[dependencies]
libc = "0.2"
prometheus = { version = "0.14", default-features = false }
rocksdb = { version = "*", default-features = false }
