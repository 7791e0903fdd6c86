[package]
name = "yoink"
version = "0.1.0"
edition = "2021"
publish = false

[dependencies]
glob = "*"
infer = "*"
clap = "*"
walkdir = "*"
rayon = "*"
colored = "*"
shellexpand = "*"
dirs = "*"
serde_json = "*"
indicatif = "*"
