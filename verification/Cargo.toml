[package]
name = "near_bindgen_core"
version = "0.1.0"
edition = "2021"
publish = false

[dependencies]
syn = { version = "1.0", features = ["full"] }
quote = "1.0"
