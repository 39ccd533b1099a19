[package]
name = "ciam_store"
version = "0.1.0"
edition = "2021"
publish = false

[dependencies]
md5 = "0.7"
tauri = { version = "=2.12.5", default-features = false }
