[package]
name = "gitgc"
version = "0.1.0"
edition = "2021"
publish = false

[dependencies]
humansize = "1"
walkdir = "2"
git2 = { version = "*", default-features = false }
