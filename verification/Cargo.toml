[package]
name = "tcp_proto"
version = "0.1.0"
edition = "2021"
publish = false

[dependencies]
etherparse = "0.9"
tun-tap = { version = "0.1", default-features = false }
env_logger = { version = "*", default-features = false }
log = "0.4"
