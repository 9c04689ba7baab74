[package]
name = "procfab"
version = "0.1.0"
edition = "2021"
publish = false

[dependencies]
rustix = { version = "*", features = ["net", "process", "fs", "pipe", "event"] }
nix = { version = "*", features = ["sched", "signal", "process", "fs"] }
