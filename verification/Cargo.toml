[package]
name = "lan-mouse-proto"
version = "0.2.0"
edition = "2021"
publish = false

[dependencies]
local-channel = "0.1"
log = "0.4"
num_enum = "0.7"
thiserror = "2"
tokio = { version = "1", features = ["io-util", "macros", "process", "rt", "time"] }
