[package]
name = "node-system-audio"
version = "0.1.0"
edition = "2021"
publish = false

[dependencies]
cpal = "=0.18.2"
napi = "=3.16.1"
napi-derive = "=3.7.0"
objc2-core-foundation = "=0.3.2"
rubato = "=0.16.2"
