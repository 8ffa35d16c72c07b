[package]
name = "nasadem"
version = "0.1.0"
edition = "2021"
publish = false

[dependencies]
memmap2 = "*"
geo = "*"
image = "*"
nalgebra = "*"
num-traits = "*"
anyhow = "*"
camino = "*"
clap = { version = "*", features = ["derive"] }
