[package]
name = "sourses"
version = "0.1.0"
edition = "2021"
publish = false

[dependencies]
regex = "*"
anyhow = "*"
clap = { version = "*", features = ["derive"] }
dirs = "*"
nix = { version = "*", features = ["term", "poll", "signal", "fs", "process"] }
portable-pty = "*"
rusqlite = { version = "*", features = ["bundled"] }
