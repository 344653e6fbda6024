[package]
name = "gprepo"
version = "0.1.0"
edition = "2021"
publish = false

[dependencies]
anyhow = "1"
clap = "4"
git2 = { version = "*", default-features = false }
globset = "0.4"
walkdir = "2"
