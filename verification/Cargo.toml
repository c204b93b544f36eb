[package]
name = "occams_rpc"
version = "0.1.0"
edition = "2021"
publish = false

[dependencies]
arc-swap = "1"
captains-log = "*"
crossfire = "2"
futures = "0.3"
io-buffer = "1"
nix = { version = "*", features = ["fs"] }
proc-macro2 = "1"
quiche = "*"
quote = "1"
ring = "*"
rustc-hash = "2"
syn = { version = "1", features = ["full"] }
tokio = { version = "1", features = ["net", "io-util", "time", "rt", "sync", "macros"] }
url = "2"
zerocopy = "0.8"
