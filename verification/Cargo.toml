[package]
name = "rust_engine"
version = "0.1.0"
edition = "2021"
publish = false

[dependencies]
image = { version = "*", default-features = false, features = ["png", "jpeg", "gif", "bmp", "webp", "ico", "tiff", "pnm", "tga", "hdr", "dds", "qoi"] }
serde = { version = "1", features = ["derive"] }
wasm-bindgen = "0.2"
serde-wasm-bindgen = "*"
console_error_panic_hook = "0.1"
