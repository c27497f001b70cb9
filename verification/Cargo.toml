[package]
name = "re-ch-rzl-rust"
version = "0.1.3"
edition = "2021"
publish = false

[dependencies]
hound = "=3.5.1"
serde = { version = "1", features = ["derive"] }
serde_json = "1"
simd-json = "0.14"
macroquad = "0.4"
rfd = "0.15"
objc2 = "0.5"
objc2-foundation = "0.2"
objc2-ui-kit = "0.2"
