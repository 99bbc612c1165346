[package]
name = "calypso"
version = "0.1.0"
edition = "2021"
publish = false

[dependencies]
lasso = { version = "0.7", features = ["multi-threaded"] }
radix_trie = "0.2"
once_cell = "1"
lazy_static = "1.4"
clap = "2.33"
