[package]
name = "auto_gis_with_rust"
version = "0.1.0"
edition = "2021"
publish = false

[dependencies]
itertools = "*"
