[package]
name = "hugepagedemo"
version = "0.1.0"
edition = "2021"
publish = false

[dependencies]
argh = "*"
clap = { version = "*", features = ["derive"] }
go-parse-duration = "*"
memory-stats = "*"
nix = { version = "*", features = ["feature", "mman"] }
rand = "*"
rand_xoshiro = "*"
strum = { version = "*", features = ["derive"] }
time = { version = "*", features = ["formatting"] }
