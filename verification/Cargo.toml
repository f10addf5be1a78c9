[package]
name = "mdbook_blush"
version = "0.1.0"
edition = "2021"
publish = false

[dependencies]
anyhow = "1"
clap = { version = "4", features = ["derive"] }
indoc = "2"
mdbook = { version = "=0.4.52", default-features = false }
pulldown-cmark = { version = "=0.10.3", default-features = false }
pulldown-cmark-to-cmark = "13"
semver = "1"
serde_json = "1"
toml_edit = "*"
