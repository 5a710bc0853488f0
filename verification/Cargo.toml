[package]
name = "tagsearch"
version = "0.1.0"
edition = "2021"
publish = false

[dependencies]
anstyle = "*"
ignore = "*"
tree-sitter = "*"
tree-sitter-highlight = "*"
tree-sitter-python = "*"
tree-sitter-rust = "*"
tree-sitter-tags = "*"
