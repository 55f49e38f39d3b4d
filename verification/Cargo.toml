[package]
name = "devkit"
version = "0.1.0"
edition = "2021"
publish = false

[dependencies]
git2 = { version = "*", default-features = false }
serde_json = "*"
toml = "*"
clap = { version = "*", features = ["derive"] }
colored = "*"
indicatif = "*"
tokio = { version = "*", features = ["macros", "rt-multi-thread"] }
walkdir = "*"
