[package]
name = "rust_in_peace"
version = "0.1.0"
edition = "2021"
publish = false

[dependencies]
rand = "=0.7.3"
uuid = { version = "=0.8.2", features = ["v4", "serde"] }
prometheus = { version = "=0.7.0", default-features = false }
zmq = "0.10"
config = "=0.10.1"
serde = { version = "=1.0.229", features = ["derive", "rc"] }
flexi_logger = "=0.14.8"
log = "=0.4.34"
hyper = "=0.12.36"
bincode = "1"
chrono = "0.4"
