[package]
name = "tis_100"
version = "0.1.0"
edition = "2021"
publish = false

[dependencies]
vec_map = "*"
hlua = "*"
