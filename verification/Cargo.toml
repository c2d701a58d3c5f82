[package]
name = "lexical-hierarchy"
version = "0.1.0"
edition = "2021"
publish = false

[dependencies]
typst-syntax = "*"
lsp-types = "*"
serde = { version = "*", features = ["derive"] }
serde_json = "*"
