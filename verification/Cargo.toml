[package]
name = "rust_ascii"
version = "0.1.0"
edition = "2021"
publish = false

[dependencies]
anyhow = "1"
clap = { version = "4", features = ["derive"] }
crossterm = "*"
html-escape = "0.2"
image = "0.25"
rayon = "1"
