[package]
name = "flowgger"
version = "0.1.0"
edition = "2021"
publish = false

[dependencies]
serde_json = "1"
kafka = "*"
notify = "*"
log = "*"
openssl = "*"
