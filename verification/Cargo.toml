[package]
name = "beacon_genesis"
version = "0.1.0"
edition = "2021"
publish = false

[dependencies]
safe_arith = "*"
tree_hash = "*"
