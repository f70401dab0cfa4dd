[package]
name = "chainx_rpc"
version = "0.1.0"
edition = "2021"
publish = false

[dependencies]
parity-codec = "3"
rustc-hex = "2"
serde_json = "1"
twox-hash = "1"
blake2-rfc = "0.2"
