[package]
name = "tcp_flows"
version = "0.1.0"
edition = "2021"
publish = false

[dependencies]
etherparse = "0.13"
log = "0.4"
env_logger = "0.9"
pcap = "0.9"
clap = { version = "3.2", features = ["derive"] }
