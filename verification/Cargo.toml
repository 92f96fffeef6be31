[package]
name = "alnflt"
version = "0.1.0"
edition = "2021"
publish = false

[dependencies]
anyhow = "*"
atty = "*"
bio-types = "*"
rust-htslib = { version = "*", default-features = false }
structopt = "*"
