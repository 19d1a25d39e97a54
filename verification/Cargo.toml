[package]
name = "wasm_emit"
version = "0.1.0"
edition = "2021"
publish = false

[dependencies]
mini_leb128 = "*"
