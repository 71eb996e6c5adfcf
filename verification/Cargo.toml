[package]
name = "kbs_client"
version = "0.1.0"
edition = "2021"
publish = false

[dependencies]
tokio = { version = "1", features = ["sync", "fs"] }
async-trait = "0.1"
lazy_static = "1"
