[package]
name = "sparko_embedded_std"
version = "0.1.0"
edition = "2021"
publish = false

[dependencies]
anyhow = "=1.0.104"
chrono = "=0.4.45"
croner = "=4.0.2"
heapless = "=0.9.3"
indexmap = "=2.14.2"
log = "=0.4.35"
rgb = "=0.8.53"
embedded-graphics = "=0.8.2"
micromath = "=2.1.0"
nalgebra = "=0.34.2"
ahrs = { version = "=0.8.0", features = ["field_access"] }
mipidsi = "=0.10.0"
embedded-svc = "=0.29.0"
