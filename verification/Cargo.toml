[package]
name = "corten"
version = "0.1.0"
edition = "2021"
publish = false

[dependencies]
argparse = "0.2"
binary-heap-plus = "=0.5.0"
bincode = "=1.3.3"
ctrlc = "=3.5.2"
rand = "=0.6.5"
rand_xorshift = { version = "=0.1.1", features = ["serde1"] }
serde = { version = "=1.0.229", features = ["derive"] }
serde_yaml = "=0.8.26"
yaml-rust = "=0.4.5"
