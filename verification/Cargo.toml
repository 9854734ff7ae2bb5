[package]
name = "dmerg"
version = "0.1.0"
edition = "2021"
publish = false

[dependencies]
anyhow = "1"
chrono = "0.4"
ctrlc = "3"
rand = "0.8"
structopt = "0.3"
