[package]
name = "anti_arp_spoof"
version = "0.1.0"
edition = "2021"
publish = false

[dependencies]
network-types = "=0.2.0"
aya-ebpf = "=0.1.1"
aya-log-ebpf = "=0.1.0"
aya = "=0.14.0"
aya-log = "=0.3.0"
anyhow = "=1.0.104"
clap = { version = "=4.6.7", features = ["derive"] }
env_logger = "=0.11.11"
libc = "=0.2.191"
log = "=0.4.34"
tokio = { version = "=1.54.1", features = ["macros", "rt", "rt-multi-thread", "signal", "time"] }
mio = { version = "=1.2.4", features = ["os-poll", "os-ext"] }
get_if_addrs = "=0.5.3"
mac_address = "=1.2.1"
pnet = "=0.35.0"
ratatui = "=0.30.2"
argh = "=0.1.19"
lazy_static = "=1.5.1"
