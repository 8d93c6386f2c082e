[package]
name = "tws_proto"
version = "0.1.0"
edition = "2021"
publish = false

[dependencies]
atoi = "2"
bytes = "1"
tracing = "0.1"
