[package]
name = "teal_typegen"
version = "0.1.0"
edition = "2021"
publish = false

[dependencies]
tree-sitter = "=0.20.10"
syn = "2"
quote = "1"
proc-macro2 = "1"
