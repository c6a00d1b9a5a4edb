[package]
name = "rust_tetris"
version = "0.1.0"
edition = "2021"
publish = false

[dependencies]
rand = "0.9"
crossterm = "0.28"
wasm-bindgen = "0.2"
