[package]
name = "lume"
version = "0.1.0"
edition = "2021"
publish = false

[dependencies]
indexmap = "=2.14.2"
semver = "=1.0.28"
levenshtein = "=1.0.5"
url = "=2.5.8"
