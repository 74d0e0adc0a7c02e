[package]
name = "nekodroid"
version = "0.1.0"
edition = "2021"
publish = false

[dependencies]
zip = { version = "2", default-features = false }
thiserror = "2"
wasm-bindgen = "0.2"
