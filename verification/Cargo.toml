[package]
name = "quad_tree_core"
version = "0.1.0"
edition = "2021"
publish = false

[dependencies]
sha3 = "0.10"
ml-kem = "0.2"
rand = "0.8"
serde = { version = "1", features = ["derive"] }
serde_json = "1"
bincode = "1"
hex = "0.4"
