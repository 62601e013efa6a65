[package]
name = "bureaucrate"
version = "0.1.0"
edition = "2021"
publish = false

[dependencies]
anyhow = "*"
camino = "*"
chrono = "*"
clap = { version = "*", features = ["derive"] }
git2 = { version = "*", default-features = false }
guppy = "*"
jrsonnet-evaluator = "*"
jrsonnet-stdlib = "*"
semver = "*"
toml_edit = "*"
tracing = "*"
tracing-subscriber = "*"
