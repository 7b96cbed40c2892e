[package]
name = "open_hypergraphs_dot"
version = "0.1.0"
edition = "2021"
publish = false

[dependencies]
open-hypergraphs = "*"
dot-structures = "*"
