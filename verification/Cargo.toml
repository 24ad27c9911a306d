[package]
name = "ebpf_turn_router"
version = "0.1.0"
edition = "2021"
publish = false

[dependencies]
network-types = "=0.0.8"
aya-ebpf = "=0.1.1"
aya-log-ebpf = "=0.1.0"
