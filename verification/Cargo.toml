[package]
name = "yamux"
version = "0.1.0"
edition = "2021"
publish = false

[dependencies]
bytes = "0.4"
crossbeam-channel = "0.3"
fnv = "1.0"
futures = "0.1"
log = "0.4"
tokio-codec = "0.1"
tokio-io = "0.1"
