[package]
name = "fomoxa_interop"
version = "0.1.0"
edition = "2021"
publish = false

[dependencies]
fomoxa-rpc = { version = "=0.1.0", features = ["net"] }
fomoxa-net = "=0.1.4"
fomoxa-attributes = "=0.1.1"
