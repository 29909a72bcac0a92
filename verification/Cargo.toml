[package]
name = "weave"
version = "0.1.0"
edition = "2021"
publish = false

[dependencies]
anyhow = "1"
clap = { version = "4", features = ["derive"] }
colored = "2"
git2 = { version = "*", default-features = false }
zip = { version = "*", default-features = false }
