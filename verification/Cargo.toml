[package]
name = "cairo_writer"
version = "0.1.0"
edition = "2021"
publish = false

[dependencies]
smallvec = "1"
starknet-types-core = "*"
cairo-lang-macro = "*"
