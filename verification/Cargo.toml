[package]
name = "rusty_gb"
version = "0.1.0"
edition = "2021"
publish = false

[dependencies]
anyhow = "1"
crossbeam-channel = "0.5"
wasm-bindgen = "0.2"
console_error_panic_hook = "0.1"
winit = { version = "0.28", default-features = false }
winit_input_helper = "0.14"
cpal = { version = "0.15", default-features = false }
