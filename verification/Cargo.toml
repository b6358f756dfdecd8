[package]
name = "sitegen"
version = "0.1.0"
edition = "2021"
publish = false

[dependencies]
gray_matter = "=0.3.2"
liquid = "=0.24.0"
pulldown-cmark = "=0.13.4"
yaml-front-matter = "=0.1.0"
serde_yaml = "=0.9.34"
