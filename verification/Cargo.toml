[package]
name = "smart_release_version"
version = "0.1.0"
edition = "2021"
publish = false

[dependencies]
semver = "1"
anyhow = "1"
cargo_metadata = "0.23"
