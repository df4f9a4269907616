[package]
name = "trueno_db"
version = "0.1.0"
edition = "2021"
publish = false

[dependencies]
arrow = { version = "=53.4.1", default-features = false }
bytemuck = "=1.25.2"
chrono = { version = "=0.4.39", features = ["serde"] }
console_error_panic_hook = "0.1"
dashmap = "=6.2.1"
futures-intrusive = "=0.5.0"
js-sys = "=0.3.106"
lz4_flex = "=0.11.6"
parquet = { version = "=53.4.1", default-features = false, features = ["arrow"] }
serde = { version = "=1.0.229", features = ["derive"] }
serde_json = "=1.0.154"
sqlparser = "=0.52.0"
thiserror = "=1.0.69"
tokio = { version = "=1.54.1", features = ["sync", "rt", "macros", "time"] }
trueno = { version = "*", default-features = false }
wasm-bindgen = "=0.2.129"
wasm-bindgen-futures = "=0.4.79"
web-sys = { version = "=0.3.106", features = ["console", "Headers", "Navigator", "Request", "RequestInit", "Response", "Window"] }
wgpu = "=22.1.0"
zstd = "=0.13.3"
