[package]
name = "hyperscan"
version = "0.1.0"
edition = "2021"
publish = false

[dependencies]
regex-syntax = "0.6"
libc = "0.2"
foreign-types = "0.5"
failure = "0.1"
