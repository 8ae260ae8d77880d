[package]
name = "ghr"
version = "0.1.0"
edition = "2021"
publish = false

[dependencies]
url = "*"
git2 = { version = "*", default-features = false }
octocrab = "*"
gh-config = "*"
clap = { version = "*", features = ["derive"] }
anyhow = "*"
serde = { version = "*", features = ["derive"] }
