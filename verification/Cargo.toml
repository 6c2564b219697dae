[package]
name = "code_parser"
version = "0.1.0"
edition = "2021"
publish = false

[dependencies]
pyo3 = "0.20"
tree-sitter = "0.20"
