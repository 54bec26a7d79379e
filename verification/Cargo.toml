[package]
name = "kanoko"
version = "0.1.0"
edition = "2021"
publish = false

[dependencies]
bon = "*"
hex_color = "*"
itertools = "*"
rand = "*"
rand_distr = "*"
svg = "*"
