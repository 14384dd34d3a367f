[package]
name = "toasty_driver_d1"
version = "0.1.0"
edition = "2021"
publish = false

[dependencies]
async-trait = "0.1"
reqwest = { version = "0.12", default-features = false, features = ["json"] }
serde = { version = "1", features = ["derive"] }
serde_json = "=1.0.154"
toasty-core = "=0.9.0"
toasty-sql = "=0.9.0"
uuid = "=1.29.0"
wasm-bindgen = "0.2"
worker = { version = "=0.8.7", features = ["d1"] }
