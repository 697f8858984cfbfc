[package]
name = "nixpkgs_eval"
version = "0.1.0"
edition = "2021"
publish = false

[dependencies]
alejandra = "*"
bytes = "1"
clap = { version = "4", features = ["derive", "env"] }
colog = "*"
git2 = "*"
log = "0.4"
poise = "*"
regex = "1"
reqwest = "*"
rustc-hash = "*"
tempfile = "3"
tokio = { version = "1", features = ["macros", "rt-multi-thread", "sync", "time"] }
