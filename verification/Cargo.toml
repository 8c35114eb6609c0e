[package]
name = "ra_db"
version = "0.1.0"
edition = "2021"
publish = false

[dependencies]
rustc-hash = "1.1"
relative-path = "1"
itertools = "0.9"
smol_str = "0.1"
once_cell = "1"
