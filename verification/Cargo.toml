[package]
name = "pixelforge"
version = "0.1.0"
edition = "2021"
publish = false

[dependencies]
image = { version = "=0.25.10", default-features = false, features = ["png", "jpeg", "webp", "bmp"] }
serde = { version = "=1.0.229", features = ["derive"] }
serde_json = "=1.0.154"
toml = "=0.8.23"
anyhow = "=1.0.104"
dirs = "=5.0.1"
log = "=0.4.35"
env_logger = "=0.11.11"
parking_lot = "=0.12.5"
ndarray = "=0.16.1"
palette = "=0.7.7"
ort = { version = "=2.0.0-rc.15", default-features = false, features = ["load-dynamic", "ndarray", "std", "cuda", "directml", "coreml"] }
reqwest = { version = "=0.12.28", default-features = false, features = ["blocking", "rustls-tls"] }
