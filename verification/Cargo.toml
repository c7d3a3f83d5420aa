[package]
name = "algosketch"
version = "0.2.1"
edition = "2021"
publish = false

[dependencies]
tree-sitter = "0.25"
tree-sitter-python = "0.23"
tree-sitter-java = "0.23"
tree-sitter-cpp = "0.23"
tree-sitter-go = "0.25"
clap = { version = "4", features = ["derive"] }
thiserror = "2"
