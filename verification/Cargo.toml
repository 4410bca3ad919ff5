[package]
name = "dumpsta"
version = "0.1.0"
edition = "2021"
publish = false

[dependencies]
anyhow = "=1.0.104"
clap = { version = "=3.2.25", features = ["derive"] }
colored = "=2.2.0"
console = "=0.16.6"
crates-index = "=0.18.11"
dirs = "=4.0.0"
flate2 = "=1.1.10"
indicatif = "=0.16.2"
rayon = "=1.12.0"
tar = "=0.4.46"
ureq = "=2.12.1"
