[package]
name = "epaint_font"
version = "0.1.0"
edition = "2021"
publish = false

[dependencies]
ahash = "=0.8.12"
cosmic-text = { version = "=0.12.1", default-features = false, features = ["std", "swash"] }
log = "0.4"
serde = { version = "1", features = ["derive"] }
