[package]
name = "fvr_engine"
version = "0.1.0"
edition = "2021"
publish = false

[dependencies]
anyhow = "=1.0.104"
serde = { version = "=1.0.229", features = ["derive"] }
serde_json = "=1.0.154"
toml = "=1.1.8"
fnv = "=1.0.7"
priority-queue = "=2.7.0"
ordered-float = "=5.5.1"
rand = "=0.10.3"
once_cell = "=1.21.4"
bracket-geometry = "=0.8.7"
hashbrown = "*"
rect_packer = "*"
xml-rs = "*"
image = { version = "*", default-features = false, features = ["png"] }
