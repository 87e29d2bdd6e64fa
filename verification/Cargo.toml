[package]
name = "matchbox_socket"
version = "0.1.0"
edition = "2021"
publish = false

[dependencies]
async-trait = "0.1"
futures = "0.3"
futures-channel = "0.3"
futures-timer = "3"
futures-util = "0.3"
log = "0.4"
parking_lot = "0.12"
thiserror = "2"
