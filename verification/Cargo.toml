[package]
name = "node_graph"
version = "0.1.0"
edition = "2021"
publish = false

[dependencies]
bytemuck = { version = "=1.25.2", features = ["extern_crate_alloc"] }
futures = "=0.3.34"
ghost-cell = "=0.2.6"
glam = "=0.34.1"
js-sys = "=0.3.106"
log = "=0.4.34"
reqwest = { version = "=0.11.27", default-features = false, features = ["blocking", "json"] }
serde = { version = "=1.0.229", features = ["derive"] }
serde_json = "=1.0.154"
slotmap = "=1.1.1"
wasm-bindgen = "=0.2.129"
web-sys = { version = "=0.3.106", features = ["Worker", "Performance"] }
xxhash-rust = { version = "=0.8.19", features = ["xxh3"] }
