[package]
name = "phash_core"
version = "0.1.0"
edition = "2021"
publish = false

[dependencies]
image = "*"
image_hasher = "*"
wasm-bindgen = "*"
console_error_panic_hook = "*"
rusqlite = { version = "*", features = ["functions", "bundled"] }
anyhow = "*"
