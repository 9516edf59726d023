[package]
name = "mahf"
version = "0.1.0"
edition = "2021"
publish = false

[dependencies]
rand = "=0.8.8"
rand_chacha = "=0.3.1"
rayon = "=1.12.0"
serde = { version = "=1.0.229", features = ["derive"] }
thiserror = "=1.0.69"
tspf = "*"
