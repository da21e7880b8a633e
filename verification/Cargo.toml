[package]
name = "pred_prey"
version = "0.1.0"
edition = "2021"
publish = false

[dependencies]
rand = { version = "0.9", default-features = false }
rand_chacha = { version = "0.9", default-features = false }
rayon = "1"
kdam = "*"
