[package]
name = "gossip_glomers"
version = "0.1.0"
edition = "2021"
publish = false

[dependencies]
log = "0.4"
serde_json = { version = "1", features = ["raw_value"] }
stderrlog = "*"
thiserror = "1"
