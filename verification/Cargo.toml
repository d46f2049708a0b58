[package]
name = "runsys"
version = "0.1.0"
edition = "2021"
publish = false

[dependencies]
clap = { version = "4.5", features = ["derive"] }
nix = { version = "0.31", features = ["process", "fs", "mount", "term", "sched", "ioctl", "poll"] }
oci-spec = "0.9"
serde = { version = "1.0", features = ["derive"] }
serde_json = "1.0"
thiserror = "2.0"
