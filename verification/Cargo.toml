[package]
name = "khora-codegen-llvm"
version = "0.1.0"
edition = "2021"
publish = false

[dependencies]
text-size = "=1.1.1"
