[package]
name = "process_sandbox"
version = "0.1.0"
edition = "2021"
publish = false

[dependencies]
crossbeam = "0.7"
mio = { version = "0.7", features = ["os-poll", "tcp", "uds"] }
once_cell = "1"
parking_lot = "0.11"
rand = "0.7"
remote-trait-object = "*"
serde = "1"
serde_cbor = "0.11"
