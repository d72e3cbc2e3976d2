[package]
name = "chart-renderer"
version = "0.1.0"
edition = "2021"
publish = false

[dependencies]
serde = { version = "1", features = ["derive"] }
serde_json = "1"
tiny-skia = "0.11"
ab_glyph = "0.2"
png = "0.17"
wasm-bindgen = "0.2"
