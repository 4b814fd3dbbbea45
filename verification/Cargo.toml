[package]
name = "opengraph_transform"
version = "0.1.0"
edition = "2021"
publish = false

[dependencies]
swc = "*"
swc_core = { version = "*", features = ["common", "ecma_ast", "ecma_parser", "ecma_visit", "ecma_utils"] }
wasm-bindgen = "*"
