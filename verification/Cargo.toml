[package]
name = "brainworms"
version = "0.1.0"
edition = "2021"
publish = false

[dependencies]
nanorand = "0.7"
egui = "0.26"
uuid = { version = "1", features = ["v4"] }
pico-args = "0.5"
tokio = { version = "1", default-features = false, features = ["sync", "rt", "rt-multi-thread"] }
parking_lot = "0.12"
log = "0.4"
env_logger = { version = "0.11", default-features = false }
cubeb = "*"
ustr = "*"
