[package]
name = "pathificate"
version = "0.1.0"
edition = "2021"
publish = false

[dependencies]
anyhow = "*"
clap = { version = "*", features = ["cargo"] }
rayon = "*"
serde = { version = "*", features = ["derive"] }
serde_json = "*"
toml_edit = { version = "*", features = ["serde"] }
usvg = "*"
