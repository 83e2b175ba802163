[package]
name = "pico_wasm_host"
version = "0.1.0"
edition = "2021"
publish = false

[dependencies]
wasmtime = { version = "=44.0.3", default-features = false, features = ["runtime", "component-model", "std", "cranelift", "pulley"] }
embedded-alloc = "=0.7.0"
embassy-time = "=0.5.1"
embassy-rp = { version = "=0.10.0", features = ["rp235xa", "_test"] }
embassy-executor = { version = "=0.10.0", features = ["platform-std", "executor-thread"] }
defmt = "=1.2.0"
defmt-rtt = "=1.3.1"
panic-probe = "=1.0.0"
anyhow = "=1.0.104"
wit-bindgen = "=0.63.0"
