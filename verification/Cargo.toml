[package]
name = "overlay_core"
version = "0.1.0"
edition = "2021"
publish = false

[dependencies]
libc = "0.2"
maths-rs = "*"
num-complex = "0.4"
serde = { version = "1", features = ["derive"] }
serde_json = "1"
