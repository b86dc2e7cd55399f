[package]
name = "tracer_core"
version = "0.1.0"
edition = "2021"
publish = false

[dependencies]
anyhow = "=1.0.104"
bytes = "=1.12.1"
futures = "=0.3.34"
http = "=1.5.0"
http-body = "=1.1.0"
js-sys = "=0.3.106"
libdd-capabilities = "=4.0.1"
libdd-capabilities-impl = { version = "=7.0.0", default-features = false }
libdd-data-pipeline = { version = "=12.0.0", default-features = false }
libdd-library-config = { version = "=4.2.0", default-features = false }
libdd-shared-runtime = { version = "=6.0.0", default-features = false }
libdd-tinybytes = { version = "=1.1.5", features = ["bytes_string", "serialization"] }
libdd-trace-utils = { version = "=14.0.0", default-features = false }
napi = { version = "=2.16.17", features = ["napi6", "async", "serde-json"] }
napi-derive = "=2.16.13"
neon = "=1.1.2"
serde = { version = "=1.0.229", features = ["derive"] }
serde_json = "=1.0.154"
serde-wasm-bindgen = "=0.6.5"
wasm-bindgen = "=0.2.129"
wasm-bindgen-futures = "=0.4.79"
zstd = "=0.13.3"
