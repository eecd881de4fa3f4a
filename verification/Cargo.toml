[package]
name = "json_digest"
version = "0.1.0"
edition = "2021"
publish = false

[dependencies]
blake3 = "*"
byteorder = "1"
serde_json = "1"
sodiumoxide = "0.2"
