[package]
name = "astrid-capsule"
version = "0.1.0"
edition = "2021"
publish = false

[dependencies]
anyhow = "=1.0.104"
async-trait = "=0.1.92"
blake3 = { version = "=1.8.7", features = ["pure"] }
dashmap = "=6.2.1"
gix-discover = { version = "=0.57.1", features = ["sha1"] }
metrics = "=0.24.6"
semver = "=1.0.28"
serde = { version = "=1.0.229", features = ["derive"] }
serde_json = "=1.0.154"
tokio = { version = "=1.54.1", features = ["net", "rt", "rt-multi-thread", "sync", "time", "macros"] }
tokio-util = "=0.7.20"
toml = "=0.9.12"
tracing = "=0.1.44"
url = "=2.5.8"
uuid = { version = "=1.29.0", features = ["v4", "v5"] }
wasmparser = "=0.249.0"
wasmtime = { version = "=45.0.3", default-features = false, features = ["runtime", "cranelift", "component-model", "async", "std"] }
wasmtime-wasi = { version = "=45.0.3", default-features = false, features = ["p2"] }

[dev-dependencies]
wasm-encoder = "=0.249.0"
