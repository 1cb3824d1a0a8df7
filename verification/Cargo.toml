[package]
name = "mcmpquic"
version = "0.1.0"
edition = "2021"
publish = false

[dependencies]
core_affinity = "=0.8.3"
env_logger = "=0.10.2"
itertools = "=0.10.5"
libc = "=0.2.191"
lockfree = "=0.5.1"
log = "=0.4.35"
mio = { version = "=0.8.11", features = ["net", "os-poll"] }
nix = { version = "=0.27.1", features = ["net", "socket"] }
quiche = { version = "=0.17.2", default-features = false }
ring = "=0.16.20"
shared_arena = "=0.8.4"
slab = "=0.4.12"
