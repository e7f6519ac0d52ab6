[package]
name = "complex_numbers"
version = "0.1.0"
edition = "2021"
publish = false

[dependencies]
fixed = "*"
cordic = "*"
float-cmp = "*"
