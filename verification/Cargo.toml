[package]
name = "datedir"
version = "0.1.0"
edition = "2021"
publish = false

[dependencies]
anyhow = "*"
chrono = "*"
clap = { version = "*", features = ["derive"] }
indicatif = { version = "*", features = ["rayon"] }
num_cpus = "*"
rayon = "*"
yansi = "*"
