[package]
name = "aligned_vec"
version = "0.1.0"
edition = "2021"
publish = false

[dependencies]
page_size = "*"
nix = { version = "*", features = ["mman"] }
