[package]
name = "rangeproof_bridge"
version = "0.1.0"
edition = "2021"
publish = false

[dependencies]
amcl_wrapper = "0.4"
pairing-plus = "0.19"
ff-zeroize = "0.6"
serde = { version = "1", features = ["derive"] }
