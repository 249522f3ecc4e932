[package]
name = "module_exports"
version = "0.1.0"
edition = "2021"
publish = false

[dependencies]
swc_core = { version = "*", default-features = false, features = ["ecma_ast", "common"] }
swc_ecma_quote = "*"
swc_ecma_utils = "*"
