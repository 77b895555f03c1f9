[package]
name = "dialect_gen"
version = "0.1.0"
edition = "2021"
publish = false

[dependencies]
convert_case = "*"
