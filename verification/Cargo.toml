[package]
name = "ebpf_ldms"
version = "0.1.0"
edition = "2021"
publish = false

[dependencies]
minicbor = { version = "=2.3.1", features = ["alloc"] }
anyhow = "=1.0.104"
clap = { version = "=4.6.7", features = ["derive"] }
serde_json = "=1.0.154"
ciborium = "=0.2.2"
smol = "=2.0.2"
async-channel = "=2.5.0"
ctrlc = "=3.5.2"
libc = "=0.2.191"
nix = { version = "=0.31.3", features = ["time"] }
log = "=0.4.35"
ftail = "=0.3.1"
aya = "=0.13.1"
aya-log = "=0.2.1"
env_logger = "=0.11.11"
