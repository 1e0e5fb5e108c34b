[package]
name = "resources"
version = "0.1.0"
edition = "2021"
publish = false

[dependencies]
regex = "1"
gettext-rs = "*"
nparse = "*"
serde = { version = "1", features = ["derive"] }
serde_json = "1"
libc = "0.2"
log = "0.4"
anyhow = "1"
thiserror = "*"
clap = { version = "4", features = ["derive"] }
nix = { version = "*", features = ["signal", "sched", "process"] }
num_cpus = "1"
uzers = "*"
rmp-serde = "*"
ron = "*"
pretty_env_logger = "*"
nvml-wrapper = "*"
zbus = "3"
async-std = { version = "1", features = ["attributes"] }
