[package]
name = "microvisor"
version = "0.1.0"
edition = "2021"
publish = false

[dependencies]
bootloader = { version = "0.9", features = ["map_physical_memory"] }
lazy_static = { version = "1", features = ["spin_no_std"] }
smoltcp = { version = "0.11", default-features = false, features = ["alloc", "medium-ethernet", "proto-ipv4", "socket-udp", "socket-tcp"] }
spin = "0.9"
wasmi = "0.31"
x86_64 = { version = "0.14", default-features = false, features = ["instructions"] }
