[package]
name = "copykitty"
version = "0.1.0"
edition = "2021"
publish = false

[dependencies]
num_cpus = "*"
rayon = "*"
clap = { version = "*", features = ["derive"] }
tracing = "*"
tracing-subscriber = "*"
