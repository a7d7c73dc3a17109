[package]
name = "umq"
version = "0.1.0"
edition = "2021"
publish = false

[dependencies]
anyhow = "1"
caps = "*"
clap = { version = "4", features = ["derive"] }
crossbeam-channel = "0.5"
ctrlc = "3"
nix = { version = "*", features = ["sched", "process"] }
posix_mq = "*"
serde = { version = "1", features = ["derive"] }
serde_json = "1"
