[package]
name = "deep_unpack"
version = "0.1.0"
edition = "2021"
publish = false

[dependencies]
anyhow = "*"
clap = "*"
ignore = "*"
log = "*"
num_cpus = "*"
rayon = "*"
regex = "*"
serde = { version = "*", features = ["derive"] }
serde_yaml = "*"
zip = "*"
