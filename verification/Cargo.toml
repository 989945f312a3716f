[package]
name = "checkc"
version = "0.1.0"
edition = "2021"
publish = false

[dependencies]
libc = "*"
nix = { version = "*", features = ["fs", "mount", "user", "hostname", "feature", "process", "sched"] }
log = "*"
thiserror = "*"
serde = { version = "*", features = ["derive"] }
serde_json = "*"
clap = { version = "*", features = ["derive"] }
env_logger = "*"
anyhow = "*"
uuid = { version = "*", features = ["v4"] }
walkdir = "*"
tempfile = "*"
rust_search = "*"
regex = "*"
once_cell = "*"
