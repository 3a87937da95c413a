[package]
name = "gta5-script-decompiler"
version = "0.1.0"
edition = "2021"
publish = false

[dependencies]
anyhow = "*"
clap = { version = "*", features = ["derive"] }
glob = "*"
indicatif = "*"
petgraph = "*"
serde = { version = "*", features = ["derive"] }
serde_json = "*"
