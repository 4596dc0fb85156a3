[package]
name = "mdns-scanner"
version = "0.1.0"
edition = "2021"
publish = false

[dependencies]
ringbuffer = "*"
unicode-width = "*"
regex = "*"
console = "*"
chrono = "*"
rlimit = "*"
dns-parser = "*"
pnet = "*"
socket2 = "*"
dns-lookup = "*"
get_if_addrs = "*"
threadpool = "*"
clap = { version = "*", features = ["derive"] }
anyhow = "*"
