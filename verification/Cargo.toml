[package]
name = "polyproto"
version = "0.1.0"
edition = "2021"
publish = false

[dependencies]
signature = "2"
spki = { version = "0.7", features = ["alloc"] }
x509-cert = "0.2"
