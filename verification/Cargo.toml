[package]
name = "checkers"
version = "0.1.0"
edition = "2021"
publish = false

[dependencies]
colored = "=2.2.0"
rand = "=0.8.8"
