[package]
name = "shtt"
version = "0.1.0"
edition = "2021"
publish = false

[dependencies]
anyhow = "=1.0.104"
clap = { version = "=4.6.7", features = ["derive"] }
dirs = "=7.0.0"
git2 = { version = "=0.21.0", default-features = false, features = ["cred"] }
