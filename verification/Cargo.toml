[package]
name = "md2paper"
version = "0.1.0"
edition = "2021"
publish = false

[dependencies]
anyhow = "1"
clap = { version = "4", features = ["derive"] }
comrak = { version = "*", default-features = false }
notify = "*"
serde = { version = "1", features = ["derive"] }
serde_json = "1"
serde_yaml = "0.9"
toml = "*"
typst = "0.14"
typst-assets = { version = "0.14", features = ["fonts"] }
typst-pdf = "0.14"
ureq = "2"
