[package]
name = "lscript"
version = "0.1.0"
edition = "2021"
publish = false

[dependencies]
regex = "1"
rand = "0.8"
colored = "2"
thiserror = "1"
