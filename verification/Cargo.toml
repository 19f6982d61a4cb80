[package]
name = "zine"
version = "0.1.0"
edition = "2021"
publish = false

[dependencies]
anyhow = "1"
pulldown-cmark = { version = "0.8", default-features = false }
serde = { version = "1", features = ["derive"] }
tera = { version = "1", default-features = false }
toml = "0.5"
walkdir = "2"
