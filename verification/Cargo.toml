[package]
name = "fdu"
version = "0.1.0"
edition = "2021"
publish = false

[dependencies]
anyhow = "=1.0.104"
clap = { version = "=4.6.7", features = ["derive"] }
crossbeam-deque = "=0.8.8"
crossbeam-utils = "=0.8.23"
fastrace = "=0.7.19"
humansize = "=2.1.3"
log = "=0.4.34"
logforth = { version = "=0.25.0", features = ["colored"] }
num_cpus = "=1.17.0"
regex = "=1.13.1"
