[package]
name = "cube5x5"
version = "0.1.0"
edition = "2021"

[dependencies]
itertools = "*"
