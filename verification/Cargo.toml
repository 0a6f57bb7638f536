[package]
name = "pauli"
version = "0.1.0"
edition = "2021"
publish = false

[dependencies]
itertools = "*"
num-complex = "*"
serde = { version = "1", features = ["derive"] }
sprs = { version = "*", default-features = false }
