[package]
name = "zenlink_protocol"
version = "0.1.0"
edition = "2021"
publish = false

[dependencies]
primitive-types = "*"
integer-sqrt = "*"
blake2 = "*"
