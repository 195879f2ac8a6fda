[package]
name = "sort_imports"
version = "0.1.0"
edition = "2021"
publish = false

[dependencies]
swc_common = "*"
swc_ecmascript = { version = "*", features = ["visit"] }
