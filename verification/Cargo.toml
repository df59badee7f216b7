[package]
name = "git_auto_commit"
version = "0.1.0"
edition = "2021"
publish = false

[dependencies]
anyhow = "1"
clap = { version = "4", features = ["derive"] }
colored = "2"
crossterm = "0.27"
git2 = { version = "0.19", default-features = false }
indicatif = "0.17"
num-format = "0.4"
rustyline = "14"
serde_json = "1"
shlex = "1"
tempfile = "3"
ureq = "2"
wait-timeout = "0.2"
