[package]
name = "git_function_history"
version = "0.1.0"
edition = "2021"
publish = false

[dependencies]
regex = "=1.13.1"
chrono = "=0.4.45"
ra_ap_syntax = "=0.0.319"
rustpython-parser = "=0.4.0"
lib-ruby-parser = "=4.0.6"
gosyn = "=0.2.15"
tree-sitter = "=0.27.1"
tree-sitter-rust = "=0.24.2"
umpl = "=1.1.1"
