[package]
name = "spm"
version = "0.1.0"
edition = "2021"
publish = false

[dependencies]
clap = { version = "*", features = ["derive"] }
console = "*"
dirs = "*"
prettytable-rs = "*"
git2 = "*"
auth-git2 = "*"
