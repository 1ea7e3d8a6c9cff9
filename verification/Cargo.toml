[package]
name = "pass_inst"
version = "0.1.0"
edition = "2021"
publish = false

[dependencies]
tree-sitter = "*"
tree-sitter-cpp = "*"
clap = { version = "4", features = ["derive"] }
