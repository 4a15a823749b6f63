[package]
name = "erd_script"
version = "0.1.0"
edition = "2021"
publish = false

[dependencies]
clap = { version = "*", features = ["derive"] }
pest = "*"
pest_derive = "*"
plotters = { version = "*", default-features = false, features = ["bitmap_backend", "bitmap_encoder"] }
serde = { version = "1", features = ["derive"] }
wasm-bindgen = { version = "*", features = ["serde-serialize"] }
