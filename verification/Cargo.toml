[package]
name = "blake3_gadgets"
version = "0.1.0"
edition = "2021"
publish = false

[dependencies]
anyhow = "1"
rand = "0.8"
rand_chacha = "0.3"
redb = "2"
serde = { version = "1", features = ["derive"] }
sha2 = "0.10"
