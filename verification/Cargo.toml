[package]
name = "memcore"
version = "0.1.0"
edition = "2021"
publish = false

[dependencies]
bytes = "*"
crossbeam-utils = "*"
fasthash = "*"
