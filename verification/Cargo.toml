[package]
name = "stonkks"
version = "0.1.0"
edition = "2021"
publish = false

[dependencies]
async-fs = "1"
async-trait = "0.1"
futures = "0.3"
js-sys = "0.3"
serde = { version = "1", features = ["derive"] }
serde_json = "1"
sycamore = { version = "0.8", features = ["ssr", "hydrate"] }
wasm-bindgen = "0.2"
web-sys = { version = "0.3", features = ["Window", "Document", "Element", "Location", "console"] }
