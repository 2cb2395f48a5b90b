[package]
name = "termvm"
version = "0.1.0"
edition = "2021"
publish = false

[dependencies]
wasm-bindgen = "*"
js-sys = "*"
kanal = "*"
console_error_panic_hook = "*"
