[package]
name = "quicheperf"
version = "0.1.0"
edition = "2021"
publish = false

[dependencies]
parse-size = "=1.1.0"
ring = "=0.17.14"
slab = "=0.4.12"
serde = { version = "=1.0.229", features = ["derive"] }
serde_json = "=1.0.154"
quiche = "=0.30.0"
mio = { version = "=1.2.4", features = ["net", "os-poll"] }
clap = { version = "=4.6.7", features = ["derive"] }
log = "=0.4.34"
env_logger = "=0.11.11"
ctrlc = "=3.5.2"
chrono = "=0.4.45"
nix = { version = "=0.31.3", features = ["socket", "net", "uio"] }
libc = "=0.2.191"
itertools = "=0.15.0"
