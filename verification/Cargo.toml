[package]
name = "sauron_core"
version = "0.1.0"
edition = "2021"
publish = false

[dependencies]
serde_json = { version = "=1.0.154", features = ["preserve_order"] }
indexmap = "=2.14.2"
