[package]
name = "topngx"
version = "0.1.0"
edition = "2021"
publish = false

[dependencies]
regex = "*"
rusqlite = { version = "*", features = ["bundled"] }
tabwriter = "*"
anyhow = "*"
atty = "*"
crossbeam-channel = "*"
crossterm = "*"
ctrlc = "*"
env_logger = "*"
log = "*"
rayon = "*"
structopt = "*"
