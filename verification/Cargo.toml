[package]
name = "celguard"
version = "0.1.0"
edition = "2021"
publish = false

[dependencies]
cel = "=0.11.6"
serde = { version = "=1.0.229", features = ["derive"] }
serde-saphyr = "=2.0.0"
http-wasm-guest = "=1.2.0"
log = "=0.4.35"
anyhow = "=1.0.104"
duration-str = "=0.21.0"
