[package]
name = "secluso_core"
version = "0.1.0"
edition = "2021"
publish = false

[dependencies]
serde_json = "=1.0.151"
bincode = "=1.3.3"
rand = "=0.8.8"
fs2 = "=0.4.3"
log = "=0.4.34"
simplelog = "=0.12.2"
parking_lot = "=0.12.5"
once_cell = "=1.21.4"
lazy_static = "=1.5.1"
tracing-log = "=0.2.0"
