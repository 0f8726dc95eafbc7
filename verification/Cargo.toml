[package]
name = "worker_pool_demo"
version = "0.1.0"
edition = "2021"
publish = false

[dependencies]
serde = { version = "1", features = ["derive"] }
rayon = "1"
tokio = { version = "1", features = ["rt", "rt-multi-thread"] }
wasm-bindgen = "0.2"
wasm-bindgen-futures = "0.4"
js-sys = "0.3"
web-sys = { version = "0.3", features = ["Worker", "Blob", "Window", "MessageEvent"] }
serde-wasm-bindgen = "0.6"
