[package]
name = "slotkeeper"
version = "0.1.0"
edition = "2021"
publish = false

[dependencies]
md5 = "*"
rand = "*"
serde_json = "*"
rust_mc_proto = "*"
socks = "*"
